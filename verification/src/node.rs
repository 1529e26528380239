//! The nodes that chains are made of.
use crate::handler::Handler;
use crate::step::{ProducerCall, RefScanStepCall, RefStepCall, ScanStepCall, StepCall};
use crate::world::World;
use std::marker::PhantomData;
use vstd::prelude::*;
use vstd::std_specs::cmp::PartialEqSpec;

verus! {

/// A chain of nodes.
pub trait ChainCall<R, In>: Sized {
    type Out;

    /// When the chain may be called.
    spec fn call_pre(&self, world: World<R>, input: In) -> bool;

    /// What a call may lead to: the chain itself, the state it was handed, and its result.
    spec fn call_post(
        &self,
        world: World<R>,
        input: In,
        after: Self,
        world_after: World<R>,
        out: Self::Out,
    ) -> bool;

    fn call(&mut self, world: &mut World<R>, input: In) -> (out: Self::Out)
        requires
            old(self).call_pre(*old(world), input),
        ensures
            old(self).call_post(*old(world), input, *final(self), *final(world), out),
    ;
}

/// The start of a chain: hands its input on.
pub struct IdentityNode {}

impl<R, In> ChainCall<R, In> for IdentityNode {
    type Out = In;

    open spec fn call_pre(&self, world: World<R>, input: In) -> bool {
        true
    }

    open spec fn call_post(
        &self,
        world: World<R>,
        input: In,
        after: Self,
        world_after: World<R>,
        out: In,
    ) -> bool {
        world_after == world && out == input
    }

    fn call(&mut self, world: &mut World<R>, input: In) -> (out: In) {
        input
    }
}

/// Hands the value to a step.
pub struct ThenNode<Prev, S> {
    pub prev: Prev,
    pub step: S,
}

impl<R, In, T, U, Prev, S> ChainCall<R, In> for ThenNode<Prev, S> where
    Prev: ChainCall<R, In, Out = T>,
    S: StepCall<R, T, Out = U>,
{
    type Out = U;

    open spec fn call_pre(&self, world: World<R>, input: In) -> bool {
        &&& self.prev.call_pre(world, input)
        &&& forall|prev: Prev, world_mid: World<R>, mid: T|
            #[trigger] self.prev.call_post(world, input, prev, world_mid, mid)
                ==> self.step.call_pre(world_mid, mid)
    }

    open spec fn call_post(
        &self,
        world: World<R>,
        input: In,
        after: Self,
        world_after: World<R>,
        out: U,
    ) -> bool {
        exists|world_mid: World<R>, mid: T|
            #[trigger] self.prev.call_post(world, input, after.prev, world_mid, mid)
                && self.step.call_post(world_mid, mid, after.step, world_after, out)
    }

    fn call(&mut self, world: &mut World<R>, input: In) -> (out: U) {
        let mid = self.prev.call(world, input);
        let ghost world_mid = *world;
        let out = self.step.call(world, mid);
        assert(old(self).prev.call_post(*old(world), input, self.prev, world_mid, mid));
        out
    }
}

/// Shows the value to a step and hands it on.
pub struct TapNode<Prev, S> {
    pub prev: Prev,
    pub step: S,
}

impl<R, In, T, Prev, S> ChainCall<R, In> for TapNode<Prev, S> where
    Prev: ChainCall<R, In, Out = T>,
    S: RefStepCall<R, T, Out = ()>,
{
    type Out = T;

    open spec fn call_pre(&self, world: World<R>, input: In) -> bool {
        &&& self.prev.call_pre(world, input)
        &&& forall|prev: Prev, world_mid: World<R>, mid: T|
            #[trigger] self.prev.call_post(world, input, prev, world_mid, mid)
                ==> self.step.call_pre(world_mid, &mid)
    }

    open spec fn call_post(
        &self,
        world: World<R>,
        input: In,
        after: Self,
        world_after: World<R>,
        out: T,
    ) -> bool {
        exists|world_mid: World<R>, mid: T|
            #[trigger] self.prev.call_post(world, input, after.prev, world_mid, mid)
                && (self.step.call_post(world_mid, &mid, after.step, world_after, ()) && out == mid)
    }

    fn call(&mut self, world: &mut World<R>, input: In) -> (out: T) {
        let mid = self.prev.call(world, input);
        let ghost world_mid = *world;
        let out = {
            self.step.call(world, &mid);
            mid
        };
        assert(old(self).prev.call_post(*old(world), input, self.prev, world_mid, mid));
        out
    }
}

/// Keeps the value if a predicate holds of it.
pub struct GuardNode<Prev, S> {
    pub prev: Prev,
    pub step: S,
}

impl<R, In, T, Prev, S> ChainCall<R, In> for GuardNode<Prev, S> where
    Prev: ChainCall<R, In, Out = T>,
    S: RefStepCall<R, T, Out = bool>,
{
    type Out = Option<T>;

    open spec fn call_pre(&self, world: World<R>, input: In) -> bool {
        &&& self.prev.call_pre(world, input)
        &&& forall|prev: Prev, world_mid: World<R>, mid: T|
            #[trigger] self.prev.call_post(world, input, prev, world_mid, mid)
                ==> self.step.call_pre(world_mid, &mid)
    }

    open spec fn call_post(
        &self,
        world: World<R>,
        input: In,
        after: Self,
        world_after: World<R>,
        out: Option<T>,
    ) -> bool {
        exists|world_mid: World<R>, mid: T|
            #[trigger] self.prev.call_post(world, input, after.prev, world_mid, mid)
                && exists|res: bool|
                    #[trigger] self.step.call_post(world_mid, &mid, after.step, world_after, res)
                        && out == (if res { Some(mid) } else { None::<T> })
    }

    fn call(&mut self, world: &mut World<R>, input: In) -> (out: Option<T>) {
        let mid = self.prev.call(world, input);
        let ghost world_mid = *world;
        let out = {
            let res = self.step.call(world, &mid);
            assert(old(self).step.call_post(world_mid, &mid, self.step, *world, res));
            if res {
                Some(mid)
            } else {
                None
            }
        };
        assert(old(self).prev.call_post(*old(world), input, self.prev, world_mid, mid));
        out
    }
}

/// Hands the value inside `Some` to a step.
pub struct MapOptionNode<Prev, S, T> {
    pub prev: Prev,
    pub step: S,
    pub marker: PhantomData<T>,
}

impl<R, In, T, U, Prev, S> ChainCall<R, In> for MapOptionNode<Prev, S, T> where
    Prev: ChainCall<R, In, Out = Option<T>>,
    S: StepCall<R, T, Out = U>,
{
    type Out = Option<U>;

    open spec fn call_pre(&self, world: World<R>, input: In) -> bool {
        &&& self.prev.call_pre(world, input)
        &&& forall|prev: Prev, world_mid: World<R>, mid: Option<T>|
            #[trigger] self.prev.call_post(world, input, prev, world_mid, mid) ==> match mid {
            Some(val) => self.step.call_pre(world_mid, val),
            None => true,
        }
    }

    open spec fn call_post(
        &self,
        world: World<R>,
        input: In,
        after: Self,
        world_after: World<R>,
        out: Option<U>,
    ) -> bool {
        exists|world_mid: World<R>, mid: Option<T>|
            #[trigger] self.prev.call_post(world, input, after.prev, world_mid, mid) && match mid {
            Some(val) => exists|res: U|
                #[trigger] self.step.call_post(world_mid, val, after.step, world_after, res)
                    && out == Some(res),
            None => after.step == self.step && world_after == world_mid && out == None::<U>,
        }
    }

    fn call(&mut self, world: &mut World<R>, input: In) -> (out: Option<U>) {
        let mid = self.prev.call(world, input);
        let ghost world_mid = *world;
        let out = match mid {
            Some(val) => {
                let res = self.step.call(world, val);
                assert(old(self).step.call_post(world_mid, val, self.step, *world, res));
                Some(res)
            },
            None => None,
        };
        assert(old(self).prev.call_post(*old(world), input, self.prev, world_mid, mid));
        out
    }
}

/// Keeps the value inside `Some` if a predicate holds of it.
pub struct FilterNode<Prev, S, T> {
    pub prev: Prev,
    pub step: S,
    pub marker: PhantomData<T>,
}

impl<R, In, T, Prev, S> ChainCall<R, In> for FilterNode<Prev, S, T> where
    Prev: ChainCall<R, In, Out = Option<T>>,
    S: RefStepCall<R, T, Out = bool>,
{
    type Out = Option<T>;

    open spec fn call_pre(&self, world: World<R>, input: In) -> bool {
        &&& self.prev.call_pre(world, input)
        &&& forall|prev: Prev, world_mid: World<R>, mid: Option<T>|
            #[trigger] self.prev.call_post(world, input, prev, world_mid, mid) ==> match mid {
            Some(val) => self.step.call_pre(world_mid, &val),
            None => true,
        }
    }

    open spec fn call_post(
        &self,
        world: World<R>,
        input: In,
        after: Self,
        world_after: World<R>,
        out: Option<T>,
    ) -> bool {
        exists|world_mid: World<R>, mid: Option<T>|
            #[trigger] self.prev.call_post(world, input, after.prev, world_mid, mid) && match mid {
            Some(val) => exists|res: bool|
                #[trigger] self.step.call_post(world_mid, &val, after.step, world_after, res)
                    && out == (if res { Some(val) } else { None::<T> }),
            None => after.step == self.step && world_after == world_mid && out == None::<T>,
        }
    }

    fn call(&mut self, world: &mut World<R>, input: In) -> (out: Option<T>) {
        let mid = self.prev.call(world, input);
        let ghost world_mid = *world;
        let out = match mid {
            Some(val) => {
                let res = self.step.call(world, &val);
                assert(old(self).step.call_post(world_mid, &val, self.step, *world, res));
                if res { Some(val) } else { None }
            },
            None => None,
        };
        assert(old(self).prev.call_post(*old(world), input, self.prev, world_mid, mid));
        out
    }
}

/// Shows the value inside `Some` to a step.
pub struct InspectOptionNode<Prev, S, T> {
    pub prev: Prev,
    pub step: S,
    pub marker: PhantomData<T>,
}

impl<R, In, T, Prev, S> ChainCall<R, In> for InspectOptionNode<Prev, S, T> where
    Prev: ChainCall<R, In, Out = Option<T>>,
    S: RefStepCall<R, T, Out = ()>,
{
    type Out = Option<T>;

    open spec fn call_pre(&self, world: World<R>, input: In) -> bool {
        &&& self.prev.call_pre(world, input)
        &&& forall|prev: Prev, world_mid: World<R>, mid: Option<T>|
            #[trigger] self.prev.call_post(world, input, prev, world_mid, mid) ==> match mid {
            Some(val) => self.step.call_pre(world_mid, &val),
            None => true,
        }
    }

    open spec fn call_post(
        &self,
        world: World<R>,
        input: In,
        after: Self,
        world_after: World<R>,
        out: Option<T>,
    ) -> bool {
        exists|world_mid: World<R>, mid: Option<T>|
            #[trigger] self.prev.call_post(world, input, after.prev, world_mid, mid) && match mid {
            Some(val) => self.step.call_post(world_mid, &val, after.step, world_after, ())
                && out == Some(val),
            None => after.step == self.step && world_after == world_mid && out == None::<T>,
        }
    }

    fn call(&mut self, world: &mut World<R>, input: In) -> (out: Option<T>) {
        let mid = self.prev.call(world, input);
        let ghost world_mid = *world;
        let out = match mid {
            Some(val) => {
                self.step.call(world, &val);
                Some(val)
            },
            None => None,
        };
        assert(old(self).prev.call_post(*old(world), input, self.prev, world_mid, mid));
        out
    }
}

/// Hands the value inside `Some` to a step that may itself give `None`.
pub struct AndThenNode<Prev, S, T, U> {
    pub prev: Prev,
    pub step: S,
    pub marker: PhantomData<(T, U)>,
}

impl<R, In, T, U, Prev, S> ChainCall<R, In> for AndThenNode<Prev, S, T, U> where
    Prev: ChainCall<R, In, Out = Option<T>>,
    S: StepCall<R, T, Out = Option<U>>,
{
    type Out = Option<U>;

    open spec fn call_pre(&self, world: World<R>, input: In) -> bool {
        &&& self.prev.call_pre(world, input)
        &&& forall|prev: Prev, world_mid: World<R>, mid: Option<T>|
            #[trigger] self.prev.call_post(world, input, prev, world_mid, mid) ==> match mid {
            Some(val) => self.step.call_pre(world_mid, val),
            None => true,
        }
    }

    open spec fn call_post(
        &self,
        world: World<R>,
        input: In,
        after: Self,
        world_after: World<R>,
        out: Option<U>,
    ) -> bool {
        exists|world_mid: World<R>, mid: Option<T>|
            #[trigger] self.prev.call_post(world, input, after.prev, world_mid, mid) && match mid {
            Some(val) => self.step.call_post(world_mid, val, after.step, world_after, out),
            None => after.step == self.step && world_after == world_mid && out == None::<U>,
        }
    }

    fn call(&mut self, world: &mut World<R>, input: In) -> (out: Option<U>) {
        let mid = self.prev.call(world, input);
        let ghost world_mid = *world;
        let out = match mid {
            Some(val) => self.step.call(world, val),
            None => None,
        };
        assert(old(self).prev.call_post(*old(world), input, self.prev, world_mid, mid));
        out
    }
}

/// Calls a producer on `None`.
pub struct OnNoneNode<Prev, S, T> {
    pub prev: Prev,
    pub producer: S,
    pub marker: PhantomData<T>,
}

impl<R, In, T, Prev, S> ChainCall<R, In> for OnNoneNode<Prev, S, T> where
    Prev: ChainCall<R, In, Out = Option<T>>,
    S: ProducerCall<R, Out = ()>,
{
    type Out = Option<T>;

    open spec fn call_pre(&self, world: World<R>, input: In) -> bool {
        &&& self.prev.call_pre(world, input)
        &&& forall|prev: Prev, world_mid: World<R>, mid: Option<T>|
            #[trigger] self.prev.call_post(world, input, prev, world_mid, mid) ==> match mid {
            Some(val) => true,
            None => self.producer.call_pre(world_mid),
        }
    }

    open spec fn call_post(
        &self,
        world: World<R>,
        input: In,
        after: Self,
        world_after: World<R>,
        out: Option<T>,
    ) -> bool {
        exists|world_mid: World<R>, mid: Option<T>|
            #[trigger] self.prev.call_post(world, input, after.prev, world_mid, mid) && match mid {
            Some(val) => after.producer == self.producer
                && world_after == world_mid
                && out == Some(val),
            None => self.producer.call_post(world_mid, after.producer, world_after, ())
                && out == None::<T>,
        }
    }

    fn call(&mut self, world: &mut World<R>, input: In) -> (out: Option<T>) {
        let mid = self.prev.call(world, input);
        let ghost world_mid = *world;
        let out = match mid {
            Some(val) => Some(val),
            None => {
                self.producer.call(world);
                None
            },
        };
        assert(old(self).prev.call_post(*old(world), input, self.prev, world_mid, mid));
        out
    }
}

/// Turns `None` into an error.
pub struct OkOrNode<Prev, E, T> {
    pub prev: Prev,
    pub err: E,
    pub marker: PhantomData<T>,
}

impl<R, In, T, E: Clone, Prev> ChainCall<R, In> for OkOrNode<Prev, E, T> where
    Prev: ChainCall<R, In, Out = Option<T>>,
{
    type Out = Result<T, E>;

    open spec fn call_pre(&self, world: World<R>, input: In) -> bool {
        self.prev.call_pre(world, input)
    }

    open spec fn call_post(
        &self,
        world: World<R>,
        input: In,
        after: Self,
        world_after: World<R>,
        out: Result<T, E>,
    ) -> bool {
        exists|world_mid: World<R>, mid: Option<T>|
            #[trigger] self.prev.call_post(world, input, after.prev, world_mid, mid) && match mid {
            Some(val) => after.err == self.err
                && world_after == world_mid
                && out == Ok::<T, E>(val),
            None => after.err == self.err
                && world_after == world_mid
                && out is Err
                && cloned(self.err, out->Err_0),
        }
    }

    fn call(&mut self, world: &mut World<R>, input: In) -> (out: Result<T, E>) {
        let mid = self.prev.call(world, input);
        let ghost world_mid = *world;
        let out = match mid {
            Some(val) => Ok(val),
            None => Err(self.err.clone()),
        };
        assert(old(self).prev.call_post(*old(world), input, self.prev, world_mid, mid));
        out
    }
}

/// Turns `None` into an error that a producer makes.
pub struct OkOrElseNode<Prev, S, T> {
    pub prev: Prev,
    pub producer: S,
    pub marker: PhantomData<T>,
}

impl<R, In, T, E, Prev, S> ChainCall<R, In> for OkOrElseNode<Prev, S, T> where
    Prev: ChainCall<R, In, Out = Option<T>>,
    S: ProducerCall<R, Out = E>,
{
    type Out = Result<T, E>;

    open spec fn call_pre(&self, world: World<R>, input: In) -> bool {
        &&& self.prev.call_pre(world, input)
        &&& forall|prev: Prev, world_mid: World<R>, mid: Option<T>|
            #[trigger] self.prev.call_post(world, input, prev, world_mid, mid) ==> match mid {
            Some(val) => true,
            None => self.producer.call_pre(world_mid),
        }
    }

    open spec fn call_post(
        &self,
        world: World<R>,
        input: In,
        after: Self,
        world_after: World<R>,
        out: Result<T, E>,
    ) -> bool {
        exists|world_mid: World<R>, mid: Option<T>|
            #[trigger] self.prev.call_post(world, input, after.prev, world_mid, mid) && match mid {
            Some(val) => after.producer == self.producer
                && world_after == world_mid
                && out == Ok::<T, E>(val),
            None => exists|res: E|
                #[trigger] self.producer.call_post(world_mid, after.producer, world_after, res)
                    && out == Err::<T, E>(res),
        }
    }

    fn call(&mut self, world: &mut World<R>, input: In) -> (out: Result<T, E>) {
        let mid = self.prev.call(world, input);
        let ghost world_mid = *world;
        let out = match mid {
            Some(val) => Ok(val),
            None => {
                let res = self.producer.call(world);
                assert(old(self).producer.call_post(world_mid, self.producer, *world, res));
                Err(res)
            },
        };
        assert(old(self).prev.call_post(*old(world), input, self.prev, world_mid, mid));
        out
    }
}

/// Replaces `None` by a default.
pub struct UnwrapOrOptionNode<Prev, T> {
    pub prev: Prev,
    pub default: T,
}

impl<R, In, T: Clone, Prev> ChainCall<R, In> for UnwrapOrOptionNode<Prev, T> where
    Prev: ChainCall<R, In, Out = Option<T>>,
{
    type Out = T;

    open spec fn call_pre(&self, world: World<R>, input: In) -> bool {
        self.prev.call_pre(world, input)
    }

    open spec fn call_post(
        &self,
        world: World<R>,
        input: In,
        after: Self,
        world_after: World<R>,
        out: T,
    ) -> bool {
        exists|world_mid: World<R>, mid: Option<T>|
            #[trigger] self.prev.call_post(world, input, after.prev, world_mid, mid) && match mid {
            Some(val) => after.default == self.default && world_after == world_mid && out == val,
            None => after.default == self.default
                && world_after == world_mid
                && cloned(self.default, out),
        }
    }

    fn call(&mut self, world: &mut World<R>, input: In) -> (out: T) {
        let mid = self.prev.call(world, input);
        let ghost world_mid = *world;
        let out = match mid {
            Some(val) => val,
            None => self.default.clone(),
        };
        assert(old(self).prev.call_post(*old(world), input, self.prev, world_mid, mid));
        out
    }
}

/// Replaces `None` by what a producer makes.
pub struct UnwrapOrElseOptionNode<Prev, S, T> {
    pub prev: Prev,
    pub producer: S,
    pub marker: PhantomData<T>,
}

impl<R, In, T, Prev, S> ChainCall<R, In> for UnwrapOrElseOptionNode<Prev, S, T> where
    Prev: ChainCall<R, In, Out = Option<T>>,
    S: ProducerCall<R, Out = T>,
{
    type Out = T;

    open spec fn call_pre(&self, world: World<R>, input: In) -> bool {
        &&& self.prev.call_pre(world, input)
        &&& forall|prev: Prev, world_mid: World<R>, mid: Option<T>|
            #[trigger] self.prev.call_post(world, input, prev, world_mid, mid) ==> match mid {
            Some(val) => true,
            None => self.producer.call_pre(world_mid),
        }
    }

    open spec fn call_post(
        &self,
        world: World<R>,
        input: In,
        after: Self,
        world_after: World<R>,
        out: T,
    ) -> bool {
        exists|world_mid: World<R>, mid: Option<T>|
            #[trigger] self.prev.call_post(world, input, after.prev, world_mid, mid) && match mid {
            Some(val) => after.producer == self.producer && world_after == world_mid && out == val,
            None => self.producer.call_post(world_mid, after.producer, world_after, out),
        }
    }

    fn call(&mut self, world: &mut World<R>, input: In) -> (out: T) {
        let mid = self.prev.call(world, input);
        let ghost world_mid = *world;
        let out = match mid {
            Some(val) => val,
            None => self.producer.call(world),
        };
        assert(old(self).prev.call_post(*old(world), input, self.prev, world_mid, mid));
        out
    }
}

/// Hands the value inside `Ok` to a step.
pub struct MapResultNode<Prev, S, T, E> {
    pub prev: Prev,
    pub step: S,
    pub marker: PhantomData<(T, E)>,
}

impl<R, In, T, U, E, Prev, S> ChainCall<R, In> for MapResultNode<Prev, S, T, E> where
    Prev: ChainCall<R, In, Out = Result<T, E>>,
    S: StepCall<R, T, Out = U>,
{
    type Out = Result<U, E>;

    open spec fn call_pre(&self, world: World<R>, input: In) -> bool {
        &&& self.prev.call_pre(world, input)
        &&& forall|prev: Prev, world_mid: World<R>, mid: Result<T, E>|
            #[trigger] self.prev.call_post(world, input, prev, world_mid, mid) ==> match mid {
            Ok(val) => self.step.call_pre(world_mid, val),
            Err(e) => true,
        }
    }

    open spec fn call_post(
        &self,
        world: World<R>,
        input: In,
        after: Self,
        world_after: World<R>,
        out: Result<U, E>,
    ) -> bool {
        exists|world_mid: World<R>, mid: Result<T, E>|
            #[trigger] self.prev.call_post(world, input, after.prev, world_mid, mid) && match mid {
            Ok(val) => exists|res: U|
                #[trigger] self.step.call_post(world_mid, val, after.step, world_after, res)
                    && out == Ok::<U, E>(res),
            Err(e) => after.step == self.step && world_after == world_mid && out == Err::<U, E>(e),
        }
    }

    fn call(&mut self, world: &mut World<R>, input: In) -> (out: Result<U, E>) {
        let mid = self.prev.call(world, input);
        let ghost world_mid = *world;
        let out = match mid {
            Ok(val) => {
                let res = self.step.call(world, val);
                assert(old(self).step.call_post(world_mid, val, self.step, *world, res));
                Ok(res)
            },
            Err(e) => Err(e),
        };
        assert(old(self).prev.call_post(*old(world), input, self.prev, world_mid, mid));
        out
    }
}

/// Hands the value inside `Ok` to a step that may itself fail.
pub struct AndThenResultNode<Prev, S, T, E, U> {
    pub prev: Prev,
    pub step: S,
    pub marker: PhantomData<(T, E, U)>,
}

impl<R, In, T, U, E, Prev, S> ChainCall<R, In> for AndThenResultNode<Prev, S, T, E, U> where
    Prev: ChainCall<R, In, Out = Result<T, E>>,
    S: StepCall<R, T, Out = Result<U, E>>,
{
    type Out = Result<U, E>;

    open spec fn call_pre(&self, world: World<R>, input: In) -> bool {
        &&& self.prev.call_pre(world, input)
        &&& forall|prev: Prev, world_mid: World<R>, mid: Result<T, E>|
            #[trigger] self.prev.call_post(world, input, prev, world_mid, mid) ==> match mid {
            Ok(val) => self.step.call_pre(world_mid, val),
            Err(e) => true,
        }
    }

    open spec fn call_post(
        &self,
        world: World<R>,
        input: In,
        after: Self,
        world_after: World<R>,
        out: Result<U, E>,
    ) -> bool {
        exists|world_mid: World<R>, mid: Result<T, E>|
            #[trigger] self.prev.call_post(world, input, after.prev, world_mid, mid) && match mid {
            Ok(val) => self.step.call_post(world_mid, val, after.step, world_after, out),
            Err(e) => after.step == self.step && world_after == world_mid && out == Err::<U, E>(e),
        }
    }

    fn call(&mut self, world: &mut World<R>, input: In) -> (out: Result<U, E>) {
        let mid = self.prev.call(world, input);
        let ghost world_mid = *world;
        let out = match mid {
            Ok(val) => self.step.call(world, val),
            Err(e) => Err(e),
        };
        assert(old(self).prev.call_post(*old(world), input, self.prev, world_mid, mid));
        out
    }
}

/// Hands the error to a step and drops it.
pub struct CatchNode<Prev, S, T, E> {
    pub prev: Prev,
    pub step: S,
    pub marker: PhantomData<(T, E)>,
}

impl<R, In, T, E, Prev, S> ChainCall<R, In> for CatchNode<Prev, S, T, E> where
    Prev: ChainCall<R, In, Out = Result<T, E>>,
    S: StepCall<R, E, Out = ()>,
{
    type Out = Option<T>;

    open spec fn call_pre(&self, world: World<R>, input: In) -> bool {
        &&& self.prev.call_pre(world, input)
        &&& forall|prev: Prev, world_mid: World<R>, mid: Result<T, E>|
            #[trigger] self.prev.call_post(world, input, prev, world_mid, mid) ==> match mid {
            Ok(val) => true,
            Err(e) => self.step.call_pre(world_mid, e),
        }
    }

    open spec fn call_post(
        &self,
        world: World<R>,
        input: In,
        after: Self,
        world_after: World<R>,
        out: Option<T>,
    ) -> bool {
        exists|world_mid: World<R>, mid: Result<T, E>|
            #[trigger] self.prev.call_post(world, input, after.prev, world_mid, mid) && match mid {
            Ok(val) => after.step == self.step && world_after == world_mid && out == Some(val),
            Err(e) => self.step.call_post(world_mid, e, after.step, world_after, ())
                && out == None::<T>,
        }
    }

    fn call(&mut self, world: &mut World<R>, input: In) -> (out: Option<T>) {
        let mid = self.prev.call(world, input);
        let ghost world_mid = *world;
        let out = match mid {
            Ok(val) => Some(val),
            Err(e) => {
                self.step.call(world, e);
                None
            },
        };
        assert(old(self).prev.call_post(*old(world), input, self.prev, world_mid, mid));
        out
    }
}

/// Hands the error to a step that gives another.
pub struct MapErrNode<Prev, S, T, E> {
    pub prev: Prev,
    pub step: S,
    pub marker: PhantomData<(T, E)>,
}

impl<R, In, T, E, E2, Prev, S> ChainCall<R, In> for MapErrNode<Prev, S, T, E> where
    Prev: ChainCall<R, In, Out = Result<T, E>>,
    S: StepCall<R, E, Out = E2>,
{
    type Out = Result<T, E2>;

    open spec fn call_pre(&self, world: World<R>, input: In) -> bool {
        &&& self.prev.call_pre(world, input)
        &&& forall|prev: Prev, world_mid: World<R>, mid: Result<T, E>|
            #[trigger] self.prev.call_post(world, input, prev, world_mid, mid) ==> match mid {
            Ok(val) => true,
            Err(e) => self.step.call_pre(world_mid, e),
        }
    }

    open spec fn call_post(
        &self,
        world: World<R>,
        input: In,
        after: Self,
        world_after: World<R>,
        out: Result<T, E2>,
    ) -> bool {
        exists|world_mid: World<R>, mid: Result<T, E>|
            #[trigger] self.prev.call_post(world, input, after.prev, world_mid, mid) && match mid {
            Ok(val) => after.step == self.step
                && world_after == world_mid
                && out == Ok::<T, E2>(val),
            Err(e) => exists|res: E2|
                #[trigger] self.step.call_post(world_mid, e, after.step, world_after, res)
                    && out == Err::<T, E2>(res),
        }
    }

    fn call(&mut self, world: &mut World<R>, input: In) -> (out: Result<T, E2>) {
        let mid = self.prev.call(world, input);
        let ghost world_mid = *world;
        let out = match mid {
            Ok(val) => Ok(val),
            Err(e) => {
                let res = self.step.call(world, e);
                assert(old(self).step.call_post(world_mid, e, self.step, *world, res));
                Err(res)
            },
        };
        assert(old(self).prev.call_post(*old(world), input, self.prev, world_mid, mid));
        out
    }
}

/// Hands the error to a step that may recover.
pub struct OrElseNode<Prev, S, T, E, E2> {
    pub prev: Prev,
    pub step: S,
    pub marker: PhantomData<(T, E, E2)>,
}

impl<R, In, T, E, E2, Prev, S> ChainCall<R, In> for OrElseNode<Prev, S, T, E, E2> where
    Prev: ChainCall<R, In, Out = Result<T, E>>,
    S: StepCall<R, E, Out = Result<T, E2>>,
{
    type Out = Result<T, E2>;

    open spec fn call_pre(&self, world: World<R>, input: In) -> bool {
        &&& self.prev.call_pre(world, input)
        &&& forall|prev: Prev, world_mid: World<R>, mid: Result<T, E>|
            #[trigger] self.prev.call_post(world, input, prev, world_mid, mid) ==> match mid {
            Ok(val) => true,
            Err(e) => self.step.call_pre(world_mid, e),
        }
    }

    open spec fn call_post(
        &self,
        world: World<R>,
        input: In,
        after: Self,
        world_after: World<R>,
        out: Result<T, E2>,
    ) -> bool {
        exists|world_mid: World<R>, mid: Result<T, E>|
            #[trigger] self.prev.call_post(world, input, after.prev, world_mid, mid) && match mid {
            Ok(val) => after.step == self.step
                && world_after == world_mid
                && out == Ok::<T, E2>(val),
            Err(e) => self.step.call_post(world_mid, e, after.step, world_after, out),
        }
    }

    fn call(&mut self, world: &mut World<R>, input: In) -> (out: Result<T, E2>) {
        let mid = self.prev.call(world, input);
        let ghost world_mid = *world;
        let out = match mid {
            Ok(val) => Ok(val),
            Err(e) => self.step.call(world, e),
        };
        assert(old(self).prev.call_post(*old(world), input, self.prev, world_mid, mid));
        out
    }
}

/// Shows the value inside `Ok` to a step.
pub struct InspectResultNode<Prev, S, T, E> {
    pub prev: Prev,
    pub step: S,
    pub marker: PhantomData<(T, E)>,
}

impl<R, In, T, E, Prev, S> ChainCall<R, In> for InspectResultNode<Prev, S, T, E> where
    Prev: ChainCall<R, In, Out = Result<T, E>>,
    S: RefStepCall<R, T, Out = ()>,
{
    type Out = Result<T, E>;

    open spec fn call_pre(&self, world: World<R>, input: In) -> bool {
        &&& self.prev.call_pre(world, input)
        &&& forall|prev: Prev, world_mid: World<R>, mid: Result<T, E>|
            #[trigger] self.prev.call_post(world, input, prev, world_mid, mid) ==> match mid {
            Ok(val) => self.step.call_pre(world_mid, &val),
            Err(e) => true,
        }
    }

    open spec fn call_post(
        &self,
        world: World<R>,
        input: In,
        after: Self,
        world_after: World<R>,
        out: Result<T, E>,
    ) -> bool {
        exists|world_mid: World<R>, mid: Result<T, E>|
            #[trigger] self.prev.call_post(world, input, after.prev, world_mid, mid) && match mid {
            Ok(val) => self.step.call_post(world_mid, &val, after.step, world_after, ())
                && out == Ok::<T, E>(val),
            Err(e) => after.step == self.step && world_after == world_mid && out == Err::<T, E>(e),
        }
    }

    fn call(&mut self, world: &mut World<R>, input: In) -> (out: Result<T, E>) {
        let mid = self.prev.call(world, input);
        let ghost world_mid = *world;
        let out = match mid {
            Ok(val) => {
                self.step.call(world, &val);
                Ok(val)
            },
            Err(e) => Err(e),
        };
        assert(old(self).prev.call_post(*old(world), input, self.prev, world_mid, mid));
        out
    }
}

/// Shows the error to a step.
pub struct InspectErrNode<Prev, S, T, E> {
    pub prev: Prev,
    pub step: S,
    pub marker: PhantomData<(T, E)>,
}

impl<R, In, T, E, Prev, S> ChainCall<R, In> for InspectErrNode<Prev, S, T, E> where
    Prev: ChainCall<R, In, Out = Result<T, E>>,
    S: RefStepCall<R, E, Out = ()>,
{
    type Out = Result<T, E>;

    open spec fn call_pre(&self, world: World<R>, input: In) -> bool {
        &&& self.prev.call_pre(world, input)
        &&& forall|prev: Prev, world_mid: World<R>, mid: Result<T, E>|
            #[trigger] self.prev.call_post(world, input, prev, world_mid, mid) ==> match mid {
            Ok(val) => true,
            Err(e) => self.step.call_pre(world_mid, &e),
        }
    }

    open spec fn call_post(
        &self,
        world: World<R>,
        input: In,
        after: Self,
        world_after: World<R>,
        out: Result<T, E>,
    ) -> bool {
        exists|world_mid: World<R>, mid: Result<T, E>|
            #[trigger] self.prev.call_post(world, input, after.prev, world_mid, mid) && match mid {
            Ok(val) => after.step == self.step
                && world_after == world_mid
                && out == Ok::<T, E>(val),
            Err(e) => self.step.call_post(world_mid, &e, after.step, world_after, ())
                && out == Err::<T, E>(e),
        }
    }

    fn call(&mut self, world: &mut World<R>, input: In) -> (out: Result<T, E>) {
        let mid = self.prev.call(world, input);
        let ghost world_mid = *world;
        let out = match mid {
            Ok(val) => Ok(val),
            Err(e) => {
                self.step.call(world, &e);
                Err(e)
            },
        };
        assert(old(self).prev.call_post(*old(world), input, self.prev, world_mid, mid));
        out
    }
}

/// Drops the error.
pub struct OkResultNode<Prev, T, E> {
    pub prev: Prev,
    pub marker: PhantomData<(T, E)>,
}

impl<R, In, T, E, Prev> ChainCall<R, In> for OkResultNode<Prev, T, E> where
    Prev: ChainCall<R, In, Out = Result<T, E>>,
{
    type Out = Option<T>;

    open spec fn call_pre(&self, world: World<R>, input: In) -> bool {
        self.prev.call_pre(world, input)
    }

    open spec fn call_post(
        &self,
        world: World<R>,
        input: In,
        after: Self,
        world_after: World<R>,
        out: Option<T>,
    ) -> bool {
        exists|world_mid: World<R>, mid: Result<T, E>|
            #[trigger] self.prev.call_post(world, input, after.prev, world_mid, mid) && match mid {
            Ok(val) => world_after == world_mid && out == Some(val),
            Err(e) => world_after == world_mid && out == None::<T>,
        }
    }

    fn call(&mut self, world: &mut World<R>, input: In) -> (out: Option<T>) {
        let mid = self.prev.call(world, input);
        let ghost world_mid = *world;
        let out = match mid {
            Ok(val) => Some(val),
            Err(e) => None,
        };
        assert(old(self).prev.call_post(*old(world), input, self.prev, world_mid, mid));
        out
    }
}

/// Replaces an error by a default.
pub struct UnwrapOrResultNode<Prev, T, E> {
    pub prev: Prev,
    pub default: T,
    pub marker: PhantomData<E>,
}

impl<R, In, T: Clone, E, Prev> ChainCall<R, In> for UnwrapOrResultNode<Prev, T, E> where
    Prev: ChainCall<R, In, Out = Result<T, E>>,
{
    type Out = T;

    open spec fn call_pre(&self, world: World<R>, input: In) -> bool {
        self.prev.call_pre(world, input)
    }

    open spec fn call_post(
        &self,
        world: World<R>,
        input: In,
        after: Self,
        world_after: World<R>,
        out: T,
    ) -> bool {
        exists|world_mid: World<R>, mid: Result<T, E>|
            #[trigger] self.prev.call_post(world, input, after.prev, world_mid, mid) && match mid {
            Ok(val) => after.default == self.default && world_after == world_mid && out == val,
            Err(e) => after.default == self.default
                && world_after == world_mid
                && cloned(self.default, out),
        }
    }

    fn call(&mut self, world: &mut World<R>, input: In) -> (out: T) {
        let mid = self.prev.call(world, input);
        let ghost world_mid = *world;
        let out = match mid {
            Ok(val) => val,
            Err(e) => self.default.clone(),
        };
        assert(old(self).prev.call_post(*old(world), input, self.prev, world_mid, mid));
        out
    }
}

/// Replaces an error by what a step makes of it.
pub struct UnwrapOrElseResultNode<Prev, S, T, E> {
    pub prev: Prev,
    pub step: S,
    pub marker: PhantomData<(T, E)>,
}

impl<R, In, T, E, Prev, S> ChainCall<R, In> for UnwrapOrElseResultNode<Prev, S, T, E> where
    Prev: ChainCall<R, In, Out = Result<T, E>>,
    S: StepCall<R, E, Out = T>,
{
    type Out = T;

    open spec fn call_pre(&self, world: World<R>, input: In) -> bool {
        &&& self.prev.call_pre(world, input)
        &&& forall|prev: Prev, world_mid: World<R>, mid: Result<T, E>|
            #[trigger] self.prev.call_post(world, input, prev, world_mid, mid) ==> match mid {
            Ok(val) => true,
            Err(e) => self.step.call_pre(world_mid, e),
        }
    }

    open spec fn call_post(
        &self,
        world: World<R>,
        input: In,
        after: Self,
        world_after: World<R>,
        out: T,
    ) -> bool {
        exists|world_mid: World<R>, mid: Result<T, E>|
            #[trigger] self.prev.call_post(world, input, after.prev, world_mid, mid) && match mid {
            Ok(val) => after.step == self.step && world_after == world_mid && out == val,
            Err(e) => self.step.call_post(world_mid, e, after.step, world_after, out),
        }
    }

    fn call(&mut self, world: &mut World<R>, input: In) -> (out: T) {
        let mid = self.prev.call(world, input);
        let ghost world_mid = *world;
        let out = match mid {
            Ok(val) => val,
            Err(e) => self.step.call(world, e),
        };
        assert(old(self).prev.call_post(*old(world), input, self.prev, world_mid, mid));
        out
    }
}

/// Drops an `Option<()>`.
pub struct DiscardOptionNode<Prev> {
    pub prev: Prev,
}

impl<R, In, Prev> ChainCall<R, In> for DiscardOptionNode<Prev> where
    Prev: ChainCall<R, In, Out = Option<()>>,
{
    type Out = ();

    open spec fn call_pre(&self, world: World<R>, input: In) -> bool {
        self.prev.call_pre(world, input)
    }

    open spec fn call_post(
        &self,
        world: World<R>,
        input: In,
        after: Self,
        world_after: World<R>,
        out: (),
    ) -> bool {
        exists|world_mid: World<R>, mid: Option<()>|
            #[trigger] self.prev.call_post(world, input, after.prev, world_mid, mid) && match mid {
            Some(_) => world_after == world_mid && out == (),
            None => world_after == world_mid && out == (),
        }
    }

    fn call(&mut self, world: &mut World<R>, input: In) -> (out: ()) {
        let mid = self.prev.call(world, input);
        let ghost world_mid = *world;
        let out = match mid {
            Some(_) => (),
            None => (),
        };
        assert(old(self).prev.call_post(*old(world), input, self.prev, world_mid, mid));
        out
    }
}

/// Shows the value to a step that gives the next one.
pub struct DagThenNode<Prev, S, NewOut> {
    pub prev: Prev,
    pub step: S,
    pub marker: PhantomData<NewOut>,
}

impl<R, In, T, Prev, S, NewOut> ChainCall<R, In> for DagThenNode<Prev, S, NewOut> where
    Prev: ChainCall<R, In, Out = T>,
    S: for<'a> StepCall<R, &'a T, Out = NewOut>,
{
    type Out = NewOut;

    open spec fn call_pre(&self, world: World<R>, input: In) -> bool {
        &&& self.prev.call_pre(world, input)
        &&& forall|prev: Prev, world_mid: World<R>, mid: T|
            #[trigger] self.prev.call_post(world, input, prev, world_mid, mid)
                ==> self.step.call_pre(world_mid, &mid)
    }

    open spec fn call_post(
        &self,
        world: World<R>,
        input: In,
        after: Self,
        world_after: World<R>,
        out: NewOut,
    ) -> bool {
        exists|world_mid: World<R>, mid: T|
            #[trigger] self.prev.call_post(world, input, after.prev, world_mid, mid)
                && self.step.call_post(world_mid, &mid, after.step, world_after, out)
    }

    fn call(&mut self, world: &mut World<R>, input: In) -> (out: NewOut) {
        let mid = self.prev.call(world, input);
        let ghost world_mid = *world;
        let out = self.step.call(world, &mid);
        assert(old(self).prev.call_post(*old(world), input, self.prev, world_mid, mid));
        out
    }
}

/// Shows the value inside `Some` to a step.
pub struct DagMapOptionNode<Prev, S, T, U> {
    pub prev: Prev,
    pub step: S,
    pub marker: PhantomData<(T, U)>,
}

impl<R, In, T, U, Prev, S> ChainCall<R, In> for DagMapOptionNode<Prev, S, T, U> where
    Prev: ChainCall<R, In, Out = Option<T>>,
    S: for<'a> StepCall<R, &'a T, Out = U>,
{
    type Out = Option<U>;

    open spec fn call_pre(&self, world: World<R>, input: In) -> bool {
        &&& self.prev.call_pre(world, input)
        &&& forall|prev: Prev, world_mid: World<R>, mid: Option<T>|
            #[trigger] self.prev.call_post(world, input, prev, world_mid, mid) ==> match mid {
            Some(val) => self.step.call_pre(world_mid, &val),
            None => true,
        }
    }

    open spec fn call_post(
        &self,
        world: World<R>,
        input: In,
        after: Self,
        world_after: World<R>,
        out: Option<U>,
    ) -> bool {
        exists|world_mid: World<R>, mid: Option<T>|
            #[trigger] self.prev.call_post(world, input, after.prev, world_mid, mid) && match mid {
            Some(val) => exists|res: U|
                #[trigger] self.step.call_post(world_mid, &val, after.step, world_after, res)
                    && out == Some(res),
            None => after.step == self.step && world_after == world_mid && out == None::<U>,
        }
    }

    fn call(&mut self, world: &mut World<R>, input: In) -> (out: Option<U>) {
        let mid = self.prev.call(world, input);
        let ghost world_mid = *world;
        let out = match mid {
            Some(val) => {
                let res = self.step.call(world, &val);
                assert(old(self).step.call_post(world_mid, &val, self.step, *world, res));
                Some(res)
            },
            None => None,
        };
        assert(old(self).prev.call_post(*old(world), input, self.prev, world_mid, mid));
        out
    }
}

/// Shows the value inside `Some` to a step that may itself give `None`.
pub struct DagAndThenOptionNode<Prev, S, T, U> {
    pub prev: Prev,
    pub step: S,
    pub marker: PhantomData<(T, U)>,
}

impl<R, In, T, U, Prev, S> ChainCall<R, In> for DagAndThenOptionNode<Prev, S, T, U> where
    Prev: ChainCall<R, In, Out = Option<T>>,
    S: for<'a> StepCall<R, &'a T, Out = Option<U>>,
{
    type Out = Option<U>;

    open spec fn call_pre(&self, world: World<R>, input: In) -> bool {
        &&& self.prev.call_pre(world, input)
        &&& forall|prev: Prev, world_mid: World<R>, mid: Option<T>|
            #[trigger] self.prev.call_post(world, input, prev, world_mid, mid) ==> match mid {
            Some(val) => self.step.call_pre(world_mid, &val),
            None => true,
        }
    }

    open spec fn call_post(
        &self,
        world: World<R>,
        input: In,
        after: Self,
        world_after: World<R>,
        out: Option<U>,
    ) -> bool {
        exists|world_mid: World<R>, mid: Option<T>|
            #[trigger] self.prev.call_post(world, input, after.prev, world_mid, mid) && match mid {
            Some(val) => self.step.call_post(world_mid, &val, after.step, world_after, out),
            None => after.step == self.step && world_after == world_mid && out == None::<U>,
        }
    }

    fn call(&mut self, world: &mut World<R>, input: In) -> (out: Option<U>) {
        let mid = self.prev.call(world, input);
        let ghost world_mid = *world;
        let out = match mid {
            Some(val) => self.step.call(world, &val),
            None => None,
        };
        assert(old(self).prev.call_post(*old(world), input, self.prev, world_mid, mid));
        out
    }
}

/// Shows the value inside `Ok` to a step.
pub struct DagMapResultNode<Prev, S, T, E, U> {
    pub prev: Prev,
    pub step: S,
    pub marker: PhantomData<(T, E, U)>,
}

impl<R, In, T, E, U, Prev, S> ChainCall<R, In> for DagMapResultNode<Prev, S, T, E, U> where
    Prev: ChainCall<R, In, Out = Result<T, E>>,
    S: for<'a> StepCall<R, &'a T, Out = U>,
{
    type Out = Result<U, E>;

    open spec fn call_pre(&self, world: World<R>, input: In) -> bool {
        &&& self.prev.call_pre(world, input)
        &&& forall|prev: Prev, world_mid: World<R>, mid: Result<T, E>|
            #[trigger] self.prev.call_post(world, input, prev, world_mid, mid) ==> match mid {
            Ok(val) => self.step.call_pre(world_mid, &val),
            Err(e) => true,
        }
    }

    open spec fn call_post(
        &self,
        world: World<R>,
        input: In,
        after: Self,
        world_after: World<R>,
        out: Result<U, E>,
    ) -> bool {
        exists|world_mid: World<R>, mid: Result<T, E>|
            #[trigger] self.prev.call_post(world, input, after.prev, world_mid, mid) && match mid {
            Ok(val) => exists|res: U|
                #[trigger] self.step.call_post(world_mid, &val, after.step, world_after, res)
                    && out == Ok::<U, E>(res),
            Err(e) => after.step == self.step && world_after == world_mid && out == Err::<U, E>(e),
        }
    }

    fn call(&mut self, world: &mut World<R>, input: In) -> (out: Result<U, E>) {
        let mid = self.prev.call(world, input);
        let ghost world_mid = *world;
        let out = match mid {
            Ok(val) => {
                let res = self.step.call(world, &val);
                assert(old(self).step.call_post(world_mid, &val, self.step, *world, res));
                Ok(res)
            },
            Err(e) => Err(e),
        };
        assert(old(self).prev.call_post(*old(world), input, self.prev, world_mid, mid));
        out
    }
}

/// Shows the value inside `Ok` to a step that may itself fail.
pub struct DagAndThenResultNode<Prev, S, T, E, U> {
    pub prev: Prev,
    pub step: S,
    pub marker: PhantomData<(T, E, U)>,
}

impl<R, In, T, E, U, Prev, S> ChainCall<R, In> for DagAndThenResultNode<Prev, S, T, E, U> where
    Prev: ChainCall<R, In, Out = Result<T, E>>,
    S: for<'a> StepCall<R, &'a T, Out = Result<U, E>>,
{
    type Out = Result<U, E>;

    open spec fn call_pre(&self, world: World<R>, input: In) -> bool {
        &&& self.prev.call_pre(world, input)
        &&& forall|prev: Prev, world_mid: World<R>, mid: Result<T, E>|
            #[trigger] self.prev.call_post(world, input, prev, world_mid, mid) ==> match mid {
            Ok(val) => self.step.call_pre(world_mid, &val),
            Err(e) => true,
        }
    }

    open spec fn call_post(
        &self,
        world: World<R>,
        input: In,
        after: Self,
        world_after: World<R>,
        out: Result<U, E>,
    ) -> bool {
        exists|world_mid: World<R>, mid: Result<T, E>|
            #[trigger] self.prev.call_post(world, input, after.prev, world_mid, mid) && match mid {
            Ok(val) => self.step.call_post(world_mid, &val, after.step, world_after, out),
            Err(e) => after.step == self.step && world_after == world_mid && out == Err::<U, E>(e),
        }
    }

    fn call(&mut self, world: &mut World<R>, input: In) -> (out: Result<U, E>) {
        let mid = self.prev.call(world, input);
        let ghost world_mid = *world;
        let out = match mid {
            Ok(val) => self.step.call(world, &val),
            Err(e) => Err(e),
        };
        assert(old(self).prev.call_post(*old(world), input, self.prev, world_mid, mid));
        out
    }
}

/// Shows the error to a step and drops it.
pub struct DagCatchNode<Prev, S, T, E> {
    pub prev: Prev,
    pub step: S,
    pub marker: PhantomData<(T, E)>,
}

impl<R, In, T, E, Prev, S> ChainCall<R, In> for DagCatchNode<Prev, S, T, E> where
    Prev: ChainCall<R, In, Out = Result<T, E>>,
    S: for<'a> StepCall<R, &'a E, Out = ()>,
{
    type Out = Option<T>;

    open spec fn call_pre(&self, world: World<R>, input: In) -> bool {
        &&& self.prev.call_pre(world, input)
        &&& forall|prev: Prev, world_mid: World<R>, mid: Result<T, E>|
            #[trigger] self.prev.call_post(world, input, prev, world_mid, mid) ==> match mid {
            Ok(val) => true,
            Err(e) => self.step.call_pre(world_mid, &e),
        }
    }

    open spec fn call_post(
        &self,
        world: World<R>,
        input: In,
        after: Self,
        world_after: World<R>,
        out: Option<T>,
    ) -> bool {
        exists|world_mid: World<R>, mid: Result<T, E>|
            #[trigger] self.prev.call_post(world, input, after.prev, world_mid, mid) && match mid {
            Ok(val) => after.step == self.step && world_after == world_mid && out == Some(val),
            Err(e) => self.step.call_post(world_mid, &e, after.step, world_after, ())
                && out == None::<T>,
        }
    }

    fn call(&mut self, world: &mut World<R>, input: In) -> (out: Option<T>) {
        let mid = self.prev.call(world, input);
        let ghost world_mid = *world;
        let out = match mid {
            Ok(val) => Some(val),
            Err(e) => {
                self.step.call(world, &e);
                None
            },
        };
        assert(old(self).prev.call_post(*old(world), input, self.prev, world_mid, mid));
        out
    }
}

/// Negates the value.
pub struct NotNode<Prev> {
    pub prev: Prev,
}

impl<R, In, Prev> ChainCall<R, In> for NotNode<Prev> where
    Prev: ChainCall<R, In, Out = bool>,
{
    type Out = bool;

    open spec fn call_pre(&self, world: World<R>, input: In) -> bool {
        self.prev.call_pre(world, input)
    }

    open spec fn call_post(
        &self,
        world: World<R>,
        input: In,
        after: Self,
        world_after: World<R>,
        out: bool,
    ) -> bool {
        exists|world_mid: World<R>, mid: bool|
            #[trigger] self.prev.call_post(world, input, after.prev, world_mid, mid)
                && (world_after == world_mid && out == !mid)
    }

    fn call(&mut self, world: &mut World<R>, input: In) -> (out: bool) {
        let mid = self.prev.call(world, input);
        let ghost world_mid = *world;
        let out = !mid;
        assert(old(self).prev.call_post(*old(world), input, self.prev, world_mid, mid));
        out
    }
}

/// Conjunction with a producer, which is called only where the value is true.
pub struct AndBoolNode<Prev, S> {
    pub prev: Prev,
    pub producer: S,
}

impl<R, In, Prev, S> ChainCall<R, In> for AndBoolNode<Prev, S> where
    Prev: ChainCall<R, In, Out = bool>,
    S: ProducerCall<R, Out = bool>,
{
    type Out = bool;

    open spec fn call_pre(&self, world: World<R>, input: In) -> bool {
        &&& self.prev.call_pre(world, input)
        &&& forall|prev: Prev, world_mid: World<R>, mid: bool|
            #[trigger] self.prev.call_post(world, input, prev, world_mid, mid) ==> match mid {
            true => self.producer.call_pre(world_mid),
            false => true,
        }
    }

    open spec fn call_post(
        &self,
        world: World<R>,
        input: In,
        after: Self,
        world_after: World<R>,
        out: bool,
    ) -> bool {
        exists|world_mid: World<R>, mid: bool|
            #[trigger] self.prev.call_post(world, input, after.prev, world_mid, mid) && match mid {
            true => self.producer.call_post(world_mid, after.producer, world_after, out),
            false => after.producer == self.producer && world_after == world_mid && out == false,
        }
    }

    fn call(&mut self, world: &mut World<R>, input: In) -> (out: bool) {
        let mid = self.prev.call(world, input);
        let ghost world_mid = *world;
        let out = match mid {
            true => self.producer.call(world),
            false => false,
        };
        assert(old(self).prev.call_post(*old(world), input, self.prev, world_mid, mid));
        out
    }
}

/// Disjunction with a producer, which is called only where the value is false.
pub struct OrBoolNode<Prev, S> {
    pub prev: Prev,
    pub producer: S,
}

impl<R, In, Prev, S> ChainCall<R, In> for OrBoolNode<Prev, S> where
    Prev: ChainCall<R, In, Out = bool>,
    S: ProducerCall<R, Out = bool>,
{
    type Out = bool;

    open spec fn call_pre(&self, world: World<R>, input: In) -> bool {
        &&& self.prev.call_pre(world, input)
        &&& forall|prev: Prev, world_mid: World<R>, mid: bool|
            #[trigger] self.prev.call_post(world, input, prev, world_mid, mid) ==> match mid {
            true => true,
            false => self.producer.call_pre(world_mid),
        }
    }

    open spec fn call_post(
        &self,
        world: World<R>,
        input: In,
        after: Self,
        world_after: World<R>,
        out: bool,
    ) -> bool {
        exists|world_mid: World<R>, mid: bool|
            #[trigger] self.prev.call_post(world, input, after.prev, world_mid, mid) && match mid {
            true => after.producer == self.producer && world_after == world_mid && out == true,
            false => self.producer.call_post(world_mid, after.producer, world_after, out),
        }
    }

    fn call(&mut self, world: &mut World<R>, input: In) -> (out: bool) {
        let mid = self.prev.call(world, input);
        let ghost world_mid = *world;
        let out = match mid {
            true => true,
            false => self.producer.call(world),
        };
        assert(old(self).prev.call_post(*old(world), input, self.prev, world_mid, mid));
        out
    }
}

/// Exclusive disjunction with a producer, which is always called.
pub struct XorBoolNode<Prev, S> {
    pub prev: Prev,
    pub producer: S,
}

impl<R, In, Prev, S> ChainCall<R, In> for XorBoolNode<Prev, S> where
    Prev: ChainCall<R, In, Out = bool>,
    S: ProducerCall<R, Out = bool>,
{
    type Out = bool;

    open spec fn call_pre(&self, world: World<R>, input: In) -> bool {
        &&& self.prev.call_pre(world, input)
        &&& forall|prev: Prev, world_mid: World<R>, mid: bool|
            #[trigger] self.prev.call_post(world, input, prev, world_mid, mid)
                ==> self.producer.call_pre(world_mid)
    }

    open spec fn call_post(
        &self,
        world: World<R>,
        input: In,
        after: Self,
        world_after: World<R>,
        out: bool,
    ) -> bool {
        exists|world_mid: World<R>, mid: bool|
            #[trigger] self.prev.call_post(world, input, after.prev, world_mid, mid)
                && exists|res: bool|
                    #[trigger] self.producer.call_post(world_mid, after.producer, world_after, res)
                        && out == (mid != res)
    }

    fn call(&mut self, world: &mut World<R>, input: In) -> (out: bool) {
        let mid = self.prev.call(world, input);
        let ghost world_mid = *world;
        let out = {
            let res = self.producer.call(world);
            assert(old(self).producer.call_post(world_mid, self.producer, *world, res));
            mid != res
        };
        assert(old(self).prev.call_post(*old(world), input, self.prev, world_mid, mid));
        out
    }
}

/// Clones the value behind a reference inside `Some`.
pub struct ClonedOptionNode<Prev, T> {
    pub prev: Prev,
    pub marker: PhantomData<T>,
}

impl<'a, R, In, T: Clone + 'a, Prev> ChainCall<R, In> for ClonedOptionNode<Prev, T> where
    Prev: ChainCall<R, In, Out = Option<&'a T>>,
{
    type Out = Option<T>;

    open spec fn call_pre(&self, world: World<R>, input: In) -> bool {
        self.prev.call_pre(world, input)
    }

    open spec fn call_post(
        &self,
        world: World<R>,
        input: In,
        after: Self,
        world_after: World<R>,
        out: Option<T>,
    ) -> bool {
        exists|world_mid: World<R>, mid: Option<&'a T>|
            #[trigger] self.prev.call_post(world, input, after.prev, world_mid, mid) && match mid {
            Some(r) => world_after == world_mid && out is Some && cloned(*r, out->0),
            None => world_after == world_mid && out == None::<T>,
        }
    }

    fn call(&mut self, world: &mut World<R>, input: In) -> (out: Option<T>) {
        let mid = self.prev.call(world, input);
        let ghost world_mid = *world;
        let out = match mid {
            Some(r) => Some(r.clone()),
            None => None,
        };
        assert(old(self).prev.call_post(*old(world), input, self.prev, world_mid, mid));
        out
    }
}

/// Clones the value behind a reference inside `Ok`.
pub struct ClonedResultNode<Prev, T, E> {
    pub prev: Prev,
    pub marker: PhantomData<(T, E)>,
}

impl<'a, R, In, T: Clone + 'a, E, Prev> ChainCall<R, In> for ClonedResultNode<Prev, T, E> where
    Prev: ChainCall<R, In, Out = Result<&'a T, E>>,
{
    type Out = Result<T, E>;

    open spec fn call_pre(&self, world: World<R>, input: In) -> bool {
        self.prev.call_pre(world, input)
    }

    open spec fn call_post(
        &self,
        world: World<R>,
        input: In,
        after: Self,
        world_after: World<R>,
        out: Result<T, E>,
    ) -> bool {
        exists|world_mid: World<R>, mid: Result<&'a T, E>|
            #[trigger] self.prev.call_post(world, input, after.prev, world_mid, mid) && match mid {
            Ok(r) => world_after == world_mid && out is Ok && cloned(*r, out->Ok_0),
            Err(e) => world_after == world_mid && out == Err::<T, E>(e),
        }
    }

    fn call(&mut self, world: &mut World<R>, input: In) -> (out: Result<T, E>) {
        let mid = self.prev.call(world, input);
        let ghost world_mid = *world;
        let out = match mid {
            Ok(r) => Ok(r.clone()),
            Err(e) => Err(e),
        };
        assert(old(self).prev.call_post(*old(world), input, self.prev, world_mid, mid));
        out
    }
}

/// Hands the value to a handler.
pub struct DispatchNode<Prev, H> {
    pub prev: Prev,
    pub handler: H,
}

impl<R, In, T, Prev, H> ChainCall<R, In> for DispatchNode<Prev, H> where
    Prev: ChainCall<R, In, Out = T>,
    H: Handler<R, T>,
{
    type Out = ();

    open spec fn call_pre(&self, world: World<R>, input: In) -> bool {
        &&& self.prev.call_pre(world, input)
        &&& forall|prev: Prev, world_mid: World<R>, mid: T|
            #[trigger] self.prev.call_post(world, input, prev, world_mid, mid)
                ==> self.handler.run_pre(world_mid, mid)
    }

    open spec fn call_post(
        &self,
        world: World<R>,
        input: In,
        after: Self,
        world_after: World<R>,
        out: (),
    ) -> bool {
        exists|world_mid: World<R>, mid: T|
            #[trigger] self.prev.call_post(world, input, after.prev, world_mid, mid)
                && self.handler.run_post(world_mid, mid, &after.handler, world_after)
    }

    fn call(&mut self, world: &mut World<R>, input: In) -> (out: ()) {
        let mid = self.prev.call(world, input);
        let ghost world_mid = *world;
        let out = self.handler.handle(world, mid);
        assert(old(self).prev.call_post(*old(world), input, self.prev, world_mid, mid));
        out
    }
}

/// Shows the value to a side chain and hands it on.
pub struct TeeNode<Prev, C> {
    pub prev: Prev,
    pub side: C,
}

impl<R, In, T, Prev, C> ChainCall<R, In> for TeeNode<Prev, C> where
    Prev: ChainCall<R, In, Out = T>,
    C: for<'a> ChainCall<R, &'a T, Out = ()>,
{
    type Out = T;

    open spec fn call_pre(&self, world: World<R>, input: In) -> bool {
        &&& self.prev.call_pre(world, input)
        &&& forall|prev: Prev, world_mid: World<R>, mid: T|
            #[trigger] self.prev.call_post(world, input, prev, world_mid, mid)
                ==> self.side.call_pre(world_mid, &mid)
    }

    open spec fn call_post(
        &self,
        world: World<R>,
        input: In,
        after: Self,
        world_after: World<R>,
        out: T,
    ) -> bool {
        exists|world_mid: World<R>, mid: T|
            #[trigger] self.prev.call_post(world, input, after.prev, world_mid, mid)
                && (self.side.call_post(world_mid, &mid, after.side, world_after, ()) && out == mid)
    }

    fn call(&mut self, world: &mut World<R>, input: In) -> (out: T) {
        let mid = self.prev.call(world, input);
        let ghost world_mid = *world;
        let out = {
            self.side.call(world, &mid);
            mid
        };
        assert(old(self).prev.call_post(*old(world), input, self.prev, world_mid, mid));
        out
    }
}

/// Drops a value that equals the one before it.
pub struct DedupNode<Prev, T> {
    pub prev: Prev,
    pub last: Option<T>,
}

impl<
    R,
    In,
    T: PartialEq + Clone,
    Prev: ChainCall<R, In, Out = T>,
> ChainCall<R, In> for DedupNode<Prev, T> {
    type Out = Option<T>;

    open spec fn call_pre(&self, world: World<R>, input: In) -> bool {
        self.prev.call_pre(world, input)
    }

    open spec fn call_post(
        &self,
        world: World<R>,
        input: In,
        after: Self,
        world_after: World<R>,
        out: Option<T>,
    ) -> bool {
        exists|val: T|
            #[trigger] self.prev.call_post(world, input, after.prev, world_after, val)
                && dedup_post(self.last, val, after.last, out)
    }

    fn call(&mut self, world: &mut World<R>, input: In) -> (out: Option<T>) {
        let val = self.prev.call(world, input);
        let same = match &self.last {
            Some(last) => *last == val,
            None => false,
        };
        let out = if same {
            None
        } else {
            self.last = Some(val.clone());
            Some(val)
        };
        assert(old(self).prev.call_post(*old(world), input, self.prev, *world, val));
        out
    }
}

/// What `val` becomes after `last`: it is dropped where the two are equal, and otherwise
/// handed on and kept for the next comparison.
pub open spec fn dedup_post<T: PartialEq + Clone>(
    last: Option<T>,
    val: T,
    last_after: Option<T>,
    out: Option<T>,
) -> bool {
    &&& match out {
        Some(v) => v == val && last_after is Some && cloned(val, last_after->0),
        None => last is Some && last_after == last,
    }
    &&& T::obeys_eq_spec() ==> (out is None <==> last is Some && last->0.eq_spec(&val))
}

/// Hands the value to a step with an accumulator.
pub struct ScanNode<Prev, S, Acc> {
    pub prev: Prev,
    pub step: S,
    pub acc: Acc,
}

impl<
    R,
    In,
    T,
    U,
    Prev: ChainCall<R, In, Out = T>,
    S: ScanStepCall<R, Acc, T, Out = U>,
    Acc,
> ChainCall<R, In> for ScanNode<Prev, S, Acc> {
    type Out = U;

    open spec fn call_pre(&self, world: World<R>, input: In) -> bool {
        &&& self.prev.call_pre(world, input)
        &&& forall|prev: Prev, world_mid: World<R>, mid: T|
            #[trigger] self.prev.call_post(world, input, prev, world_mid, mid)
                ==> self.step.call_pre(world_mid, self.acc, mid)
    }

    open spec fn call_post(
        &self,
        world: World<R>,
        input: In,
        after: Self,
        world_after: World<R>,
        out: U,
    ) -> bool {
        exists|world_mid: World<R>, mid: T|
            #[trigger] self.prev.call_post(world, input, after.prev, world_mid, mid)
                && self.step.call_post(
                    world_mid,
                    self.acc,
                    mid,
                    after.step,
                    world_after,
                    after.acc,
                    out,
                )
    }

    fn call(&mut self, world: &mut World<R>, input: In) -> (out: U) {
        let mid = self.prev.call(world, input);
        let ghost world_mid = *world;
        let out = self.step.call(world, &mut self.acc, mid);
        assert(old(self).prev.call_post(*old(world), input, self.prev, world_mid, mid));
        out
    }
}

/// Shows the value to a step with an accumulator.
pub struct RefScanNode<Prev, S, Acc> {
    pub prev: Prev,
    pub step: S,
    pub acc: Acc,
}

impl<
    R,
    In,
    T,
    U,
    Prev: ChainCall<R, In, Out = T>,
    S: RefScanStepCall<R, Acc, T, Out = U>,
    Acc,
> ChainCall<R, In> for RefScanNode<Prev, S, Acc> {
    type Out = U;

    open spec fn call_pre(&self, world: World<R>, input: In) -> bool {
        &&& self.prev.call_pre(world, input)
        &&& forall|prev: Prev, world_mid: World<R>, mid: T|
            #[trigger] self.prev.call_post(world, input, prev, world_mid, mid)
                ==> self.step.call_pre(world_mid, self.acc, &mid)
    }

    open spec fn call_post(
        &self,
        world: World<R>,
        input: In,
        after: Self,
        world_after: World<R>,
        out: U,
    ) -> bool {
        exists|world_mid: World<R>, mid: T|
            #[trigger] self.prev.call_post(world, input, after.prev, world_mid, mid)
                && self.step.call_post(
                    world_mid,
                    self.acc,
                    &mid,
                    after.step,
                    world_after,
                    after.acc,
                    out,
                )
    }

    fn call(&mut self, world: &mut World<R>, input: In) -> (out: U) {
        let mid = self.prev.call(world, input);
        let ghost world_mid = *world;
        let out = self.step.call(world, &mut self.acc, &mid);
        assert(old(self).prev.call_post(*old(world), input, self.prev, world_mid, mid));
        out
    }
}

/// Hands the value to one of two chains, as a predicate decides.
pub struct RouteNode<Prev, P, C0, C1> {
    pub prev: Prev,
    pub pred: P,
    pub on_true: C0,
    pub on_false: C1,
}

impl<R, In, T, U, Prev, P, C0, C1> ChainCall<R, In> for RouteNode<Prev, P, C0, C1> where
    Prev: ChainCall<R, In, Out = T>,
    P: RefStepCall<R, T, Out = bool>,
    C0: ChainCall<R, T, Out = U>,
    C1: ChainCall<R, T, Out = U>,
{
    type Out = U;

    open spec fn call_pre(&self, world: World<R>, input: In) -> bool {
        &&& self.prev.call_pre(world, input)
        &&& forall|prev: Prev, world_mid: World<R>, mid: T|
            #[trigger] self.prev.call_post(world, input, prev, world_mid, mid) ==> {
                &&& self.pred.call_pre(world_mid, &mid)
                &&& forall|pred: P, world_arm: World<R>, side: bool|
                    #[trigger] self.pred.call_post(world_mid, &mid, pred, world_arm, side) ==> {
                        if side {
                            self.on_true.call_pre(world_arm, mid)
                        } else {
                            self.on_false.call_pre(world_arm, mid)
                        }
                    }
            }
    }

    open spec fn call_post(
        &self,
        world: World<R>,
        input: In,
        after: Self,
        world_after: World<R>,
        out: U,
    ) -> bool {
        exists|world_mid: World<R>, mid: T, world_arm: World<R>, side: bool|
            #[trigger] self.prev.call_post(world, input, after.prev, world_mid, mid)
                && #[trigger] self.pred.call_post(world_mid, &mid, after.pred, world_arm, side)
                && if side {
                    after.on_false == self.on_false
                        && self.on_true.call_post(world_arm, mid, after.on_true, world_after, out)
                } else {
                    after.on_true == self.on_true
                        && self.on_false.call_post(world_arm, mid, after.on_false, world_after, out)
                }
    }

    fn call(&mut self, world: &mut World<R>, input: In) -> (out: U) {
        let mid = self.prev.call(world, input);
        let ghost world_mid = *world;
        let side = self.pred.call(world, &mid);
        let ghost world_arm = *world;
        let out = if side {
            self.on_true.call(world, mid)
        } else {
            self.on_false.call(world, mid)
        };
        assert(old(self).prev.call_post(*old(world), input, self.prev, world_mid, mid));
        assert(old(self).pred.call_post(world_mid, &mid, self.pred, world_arm, side));
        out
    }
}

/// Shows the value to one of two chains, as a predicate decides.
pub struct DagRouteNode<Prev, P, C0, C1, NewOut> {
    pub prev: Prev,
    pub pred: P,
    pub on_true: C0,
    pub on_false: C1,
    pub marker: PhantomData<NewOut>,
}

impl<
    R,
    In,
    T,
    Prev,
    P,
    C0,
    C1,
    NewOut,
> ChainCall<R, In> for DagRouteNode<Prev, P, C0, C1, NewOut> where
    Prev: ChainCall<R, In, Out = T>,
    P: RefStepCall<R, T, Out = bool>,
    C0: for<'a> ChainCall<R, &'a T, Out = NewOut>,
    C1: for<'a> ChainCall<R, &'a T, Out = NewOut>,
{
    type Out = NewOut;

    open spec fn call_pre(&self, world: World<R>, input: In) -> bool {
        &&& self.prev.call_pre(world, input)
        &&& forall|prev: Prev, world_mid: World<R>, mid: T|
            #[trigger] self.prev.call_post(world, input, prev, world_mid, mid) ==> {
                &&& self.pred.call_pre(world_mid, &mid)
                &&& forall|pred: P, world_arm: World<R>, side: bool|
                    #[trigger] self.pred.call_post(world_mid, &mid, pred, world_arm, side) ==> {
                        if side {
                            self.on_true.call_pre(world_arm, &mid)
                        } else {
                            self.on_false.call_pre(world_arm, &mid)
                        }
                    }
            }
    }

    open spec fn call_post(
        &self,
        world: World<R>,
        input: In,
        after: Self,
        world_after: World<R>,
        out: NewOut,
    ) -> bool {
        exists|world_mid: World<R>, mid: T, world_arm: World<R>, side: bool|
            #[trigger] self.prev.call_post(world, input, after.prev, world_mid, mid)
                && #[trigger] self.pred.call_post(world_mid, &mid, after.pred, world_arm, side)
                && if side {
                    after.on_false == self.on_false
                        && self.on_true.call_post(world_arm, &mid, after.on_true, world_after, out)
                } else {
                    after.on_true == self.on_true
                        && self.on_false.call_post(
                            world_arm,
                            &mid,
                            after.on_false,
                            world_after,
                            out,
                        )
                }
    }

    fn call(&mut self, world: &mut World<R>, input: In) -> (out: NewOut) {
        let mid = self.prev.call(world, input);
        let ghost world_mid = *world;
        let side = self.pred.call(world, &mid);
        let ghost world_arm = *world;
        let out = if side {
            self.on_true.call(world, &mid)
        } else {
            self.on_false.call(world, &mid)
        };
        assert(old(self).prev.call_post(*old(world), input, self.prev, world_mid, mid));
        assert(old(self).pred.call_post(world_mid, &mid, self.pred, world_arm, side));
        out
    }
}

/// A shared reference.
pub trait Borrowed {
    type Owned;

    /// The value behind the reference.
    spec fn referent(self) -> Self::Owned;

    fn clone_referent(self) -> (out: Self::Owned) where Self: Sized, Self::Owned: Clone
        ensures
            cloned(self.referent(), out),
    ;
}

impl<'a, T> Borrowed for &'a T {
    type Owned = T;

    open spec fn referent(self) -> T {
        *self
    }

    fn clone_referent(self) -> (out: T) where T: Clone {
        self.clone()
    }
}

/// Clones the value behind a reference.
pub struct ClonedNode<Prev> {
    pub prev: Prev,
}

impl<R, In, Prev> ChainCall<R, In> for ClonedNode<Prev> where
    Prev: ChainCall<R, In>,
    Prev::Out: Borrowed,
    <Prev::Out as Borrowed>::Owned: Clone,
{
    type Out = <Prev::Out as Borrowed>::Owned;

    open spec fn call_pre(&self, world: World<R>, input: In) -> bool {
        self.prev.call_pre(world, input)
    }

    open spec fn call_post(
        &self,
        world: World<R>,
        input: In,
        after: Self,
        world_after: World<R>,
        out: <Prev::Out as Borrowed>::Owned,
    ) -> bool {
        exists|mid: Prev::Out| #[trigger] self.prev.call_post(
            world,
            input,
            after.prev,
            world_after,
            mid,
        )
            && cloned(mid.referent(), out)
    }

    fn call(&mut self, world: &mut World<R>, input: In) -> (out: <Prev::Out as Borrowed>::Owned) {
        let mid = self.prev.call(world, input);
        let out = mid.clone_referent();
        assert(old(self).prev.call_post(*old(world), input, self.prev, *world, mid));
        out
    }
}

/// A tap hands the value on as it is, after it was shown to the step.
pub proof fn lemma_tap<R, In, T, Prev: ChainCall<R, In, Out = T>, S: RefStepCall<R, T, Out = ()>>(
    node: TapNode<Prev, S>,
    world: World<R>,
    input: In,
    after: TapNode<Prev, S>,
    world_after: World<R>,
    out: T,
)
    requires
        node.call_post(world, input, after, world_after, out),
    ensures
        exists|world_mid: World<R>|
            #[trigger] node.prev.call_post(world, input, after.prev, world_mid, out)
                && node.step.call_post(world_mid, &out, after.step, world_after, ()),
{
}

/// A guard keeps the value, unchanged, exactly where the predicate holds of it.
pub proof fn lemma_guard<
    R,
    In,
    T,
    Prev: ChainCall<R, In, Out = T>,
    S: RefStepCall<R, T, Out = bool>,
>(
    node: GuardNode<Prev, S>,
    world: World<R>,
    input: In,
    after: GuardNode<Prev, S>,
    world_after: World<R>,
    out: Option<T>,
)
    requires
        node.call_post(world, input, after, world_after, out),
    ensures
        match out {
            Some(val) => exists|world_mid: World<R>|
                #[trigger] node.prev.call_post(world, input, after.prev, world_mid, val)
                    && node.step.call_post(world_mid, &val, after.step, world_after, true),
            None => exists|world_mid: World<R>, val: T|
                #[trigger] node.prev.call_post(world, input, after.prev, world_mid, val)
                    && node.step.call_post(world_mid, &val, after.step, world_after, false),
        },
{
    let (world_mid, mid) = choose|world_mid: World<R>, mid: T|
        #[trigger] node.prev.call_post(world, input, after.prev, world_mid, mid)
            && exists|res: bool|
            #[trigger] node.step.call_post(world_mid, &mid, after.step, world_after, res)
                && out == (if res {
                Some(mid)
            } else {
                None
            });
    assert(node.prev.call_post(world, input, after.prev, world_mid, mid));
    assert(out is Some ==> out->0 == mid);
}

/// Where the chain before it gives `None`, the step is not called, and `None` is handed on.
pub proof fn lemma_map_none<
    R,
    In,
    T,
    U,
    Prev: ChainCall<R, In, Out = Option<T>>,
    S: StepCall<R, T, Out = U>,
>(
    node: MapOptionNode<Prev, S, T>,
    world: World<R>,
    input: In,
    after: MapOptionNode<Prev, S, T>,
    world_after: World<R>,
    out: Option<U>,
)
    requires
        node.call_post(world, input, after, world_after, out),
        forall|prev: Prev, world_mid: World<R>, val: T|
            !#[trigger] node.prev.call_post(world, input, prev, world_mid, Some(val)),
    ensures
        out is None,
        after.step == node.step,
        node.prev.call_post(world, input, after.prev, world_after, None::<T>),
{
}

/// Where the chain before it gives `None`, the step is not called, and `None` is handed on.
pub proof fn lemma_and_then_none<
    R,
    In,
    T,
    U,
    Prev: ChainCall<R, In, Out = Option<T>>,
    S: StepCall<R, T, Out = Option<U>>,
>(
    node: AndThenNode<Prev, S, T, U>,
    world: World<R>,
    input: In,
    after: AndThenNode<Prev, S, T, U>,
    world_after: World<R>,
    out: Option<U>,
)
    requires
        node.call_post(world, input, after, world_after, out),
        forall|prev: Prev, world_mid: World<R>, val: T|
            !#[trigger] node.prev.call_post(world, input, prev, world_mid, Some(val)),
    ensures
        out is None,
        after.step == node.step,
        node.prev.call_post(world, input, after.prev, world_after, None::<T>),
{
}

/// A filter keeps the value, unchanged, or drops it. It is not called on `None`.
pub proof fn lemma_filter<
    R,
    In,
    T,
    Prev: ChainCall<R, In, Out = Option<T>>,
    S: RefStepCall<R, T, Out = bool>,
>(
    node: FilterNode<Prev, S, T>,
    world: World<R>,
    input: In,
    after: FilterNode<Prev, S, T>,
    world_after: World<R>,
    out: Option<T>,
)
    requires
        node.call_post(world, input, after, world_after, out),
    ensures
        match out {
            Some(val) => exists|world_mid: World<R>|
                #[trigger] node.prev.call_post(world, input, after.prev, world_mid, Some(val))
                    && node.step.call_post(world_mid, &val, after.step, world_after, true),
            None => (after.step == node.step && node.prev.call_post(
                world,
                input,
                after.prev,
                world_after,
                None::<T>,
            )) || exists|world_mid: World<R>, val: T|
                #[trigger] node.prev.call_post(world, input, after.prev, world_mid, Some(val))
                    && node.step.call_post(world_mid, &val, after.step, world_after, false),
        },
{
}

/// Inspecting hands the value on as it is.
pub proof fn lemma_inspect_option<
    R,
    In,
    T,
    Prev: ChainCall<R, In, Out = Option<T>>,
    S: RefStepCall<R, T, Out = ()>,
>(
    node: InspectOptionNode<Prev, S, T>,
    world: World<R>,
    input: In,
    after: InspectOptionNode<Prev, S, T>,
    world_after: World<R>,
    out: Option<T>,
)
    requires
        node.call_post(world, input, after, world_after, out),
    ensures
        exists|world_mid: World<R>| #[trigger] node.prev.call_post(
            world,
            input,
            after.prev,
            world_mid,
            out,
        ),
        out is None ==> after.step == node.step,
{
}

/// What the producer does on `None` leaves the value as it is, and it is called on `None` alone.
pub proof fn lemma_on_none<
    R,
    In,
    T,
    Prev: ChainCall<R, In, Out = Option<T>>,
    S: ProducerCall<R, Out = ()>,
>(
    node: OnNoneNode<Prev, S, T>,
    world: World<R>,
    input: In,
    after: OnNoneNode<Prev, S, T>,
    world_after: World<R>,
    out: Option<T>,
)
    requires
        node.call_post(world, input, after, world_after, out),
    ensures
        exists|world_mid: World<R>| #[trigger] node.prev.call_post(
            world,
            input,
            after.prev,
            world_mid,
            out,
        ),
        out is Some ==> after.producer == node.producer,
{
}

/// Where the chain before it gives an error, the step is not called, and the error is handed on.
pub proof fn lemma_map_result_err<
    R,
    In,
    T,
    E,
    U,
    Prev: ChainCall<R, In, Out = Result<T, E>>,
    S: StepCall<R, T, Out = U>,
>(
    node: MapResultNode<Prev, S, T, E>,
    world: World<R>,
    input: In,
    after: MapResultNode<Prev, S, T, E>,
    world_after: World<R>,
    out: Result<U, E>,
)
    requires
        node.call_post(world, input, after, world_after, out),
        forall|prev: Prev, world_mid: World<R>, val: T|
            !#[trigger] node.prev.call_post(world, input, prev, world_mid, Ok(val)),
    ensures
        out is Err,
        after.step == node.step,
        node.prev.call_post(world, input, after.prev, world_after, Err::<T, E>(out->Err_0)),
{
}

/// Where the chain before it gives an error, the step is not called, and the error is handed on.
pub proof fn lemma_and_then_err<
    R,
    In,
    T,
    E,
    U,
    Prev: ChainCall<R, In, Out = Result<T, E>>,
    S: StepCall<R, T, Out = Result<U, E>>,
>(
    node: AndThenResultNode<Prev, S, T, E, U>,
    world: World<R>,
    input: In,
    after: AndThenResultNode<Prev, S, T, E, U>,
    world_after: World<R>,
    out: Result<U, E>,
)
    requires
        node.call_post(world, input, after, world_after, out),
        forall|prev: Prev, world_mid: World<R>, val: T|
            !#[trigger] node.prev.call_post(world, input, prev, world_mid, Ok(val)),
    ensures
        out is Err,
        after.step == node.step,
        node.prev.call_post(world, input, after.prev, world_after, Err::<T, E>(out->Err_0)),
{
}

/// After a catch there is no error: a value is handed on as it is, and an error goes to the step.
pub proof fn lemma_catch<
    R,
    In,
    T,
    E,
    Prev: ChainCall<R, In, Out = Result<T, E>>,
    S: StepCall<R, E, Out = ()>,
>(
    node: CatchNode<Prev, S, T, E>,
    world: World<R>,
    input: In,
    after: CatchNode<Prev, S, T, E>,
    world_after: World<R>,
    out: Option<T>,
)
    requires
        node.call_post(world, input, after, world_after, out),
    ensures
        match out {
            Some(val) => after.step == node.step
                && node.prev.call_post(world, input, after.prev, world_after, Ok::<T, E>(val)),
            None => exists|world_mid: World<R>, e: E|
                #[trigger] node.prev.call_post(world, input, after.prev, world_mid, Err::<T, E>(e))
                    && node.step.call_post(world_mid, e, after.step, world_after, ()),
        },
{
}

/// Inspecting the error hands the result on as it is.
pub proof fn lemma_inspect_err<
    R,
    In,
    T,
    E,
    Prev: ChainCall<R, In, Out = Result<T, E>>,
    S: RefStepCall<R, E, Out = ()>,
>(
    node: InspectErrNode<Prev, S, T, E>,
    world: World<R>,
    input: In,
    after: InspectErrNode<Prev, S, T, E>,
    world_after: World<R>,
    out: Result<T, E>,
)
    requires
        node.call_post(world, input, after, world_after, out),
    ensures
        exists|world_mid: World<R>| #[trigger] node.prev.call_post(
            world,
            input,
            after.prev,
            world_mid,
            out,
        ),
        out is Ok ==> after.step == node.step,
{
}

/// Inspecting the value hands the result on as it is.
pub proof fn lemma_inspect_result<
    R,
    In,
    T,
    E,
    Prev: ChainCall<R, In, Out = Result<T, E>>,
    S: RefStepCall<R, T, Out = ()>,
>(
    node: InspectResultNode<Prev, S, T, E>,
    world: World<R>,
    input: In,
    after: InspectResultNode<Prev, S, T, E>,
    world_after: World<R>,
    out: Result<T, E>,
)
    requires
        node.call_post(world, input, after, world_after, out),
    ensures
        exists|world_mid: World<R>| #[trigger] node.prev.call_post(
            world,
            input,
            after.prev,
            world_mid,
            out,
        ),
        out is Err ==> after.step == node.step,
{
}

/// Where the chain before it gives `None`, the step is not called, and `None` is handed on.
pub proof fn lemma_dag_map_none<
    R,
    In,
    T,
    U,
    Prev: ChainCall<R, In, Out = Option<T>>,
    S: for<'a> StepCall<R, &'a T, Out = U>,
>(
    node: DagMapOptionNode<Prev, S, T, U>,
    world: World<R>,
    input: In,
    after: DagMapOptionNode<Prev, S, T, U>,
    world_after: World<R>,
    out: Option<U>,
)
    requires
        node.call_post(world, input, after, world_after, out),
        forall|prev: Prev, world_mid: World<R>, val: T|
            !#[trigger] node.prev.call_post(world, input, prev, world_mid, Some(val)),
    ensures
        out is None,
        after.step == node.step,
        node.prev.call_post(world, input, after.prev, world_after, None::<T>),
{
}

/// Where the chain before it gives `None`, the step is not called, and `None` is handed on.
pub proof fn lemma_dag_and_then_none<
    R,
    In,
    T,
    U,
    Prev: ChainCall<R, In, Out = Option<T>>,
    S: for<'a> StepCall<R, &'a T, Out = Option<U>>,
>(
    node: DagAndThenOptionNode<Prev, S, T, U>,
    world: World<R>,
    input: In,
    after: DagAndThenOptionNode<Prev, S, T, U>,
    world_after: World<R>,
    out: Option<U>,
)
    requires
        node.call_post(world, input, after, world_after, out),
        forall|prev: Prev, world_mid: World<R>, val: T|
            !#[trigger] node.prev.call_post(world, input, prev, world_mid, Some(val)),
    ensures
        out is None,
        after.step == node.step,
        node.prev.call_post(world, input, after.prev, world_after, None::<T>),
{
}

/// Where the chain before it gives an error, the step is not called, and the error is handed on.
pub proof fn lemma_dag_map_result_err<
    R,
    In,
    T,
    E,
    U,
    Prev: ChainCall<R, In, Out = Result<T, E>>,
    S: for<'a> StepCall<R, &'a T, Out = U>,
>(
    node: DagMapResultNode<Prev, S, T, E, U>,
    world: World<R>,
    input: In,
    after: DagMapResultNode<Prev, S, T, E, U>,
    world_after: World<R>,
    out: Result<U, E>,
)
    requires
        node.call_post(world, input, after, world_after, out),
        forall|prev: Prev, world_mid: World<R>, val: T|
            !#[trigger] node.prev.call_post(world, input, prev, world_mid, Ok(val)),
    ensures
        out is Err,
        after.step == node.step,
        node.prev.call_post(world, input, after.prev, world_after, Err::<T, E>(out->Err_0)),
{
}

/// Where the chain before it gives an error, the step is not called, and the error is handed on.
pub proof fn lemma_dag_and_then_err<
    R,
    In,
    T,
    E,
    U,
    Prev: ChainCall<R, In, Out = Result<T, E>>,
    S: for<'a> StepCall<R, &'a T, Out = Result<U, E>>,
>(
    node: DagAndThenResultNode<Prev, S, T, E, U>,
    world: World<R>,
    input: In,
    after: DagAndThenResultNode<Prev, S, T, E, U>,
    world_after: World<R>,
    out: Result<U, E>,
)
    requires
        node.call_post(world, input, after, world_after, out),
        forall|prev: Prev, world_mid: World<R>, val: T|
            !#[trigger] node.prev.call_post(world, input, prev, world_mid, Ok(val)),
    ensures
        out is Err,
        after.step == node.step,
        node.prev.call_post(world, input, after.prev, world_after, Err::<T, E>(out->Err_0)),
{
}

/// After a catch there is no error: a value is handed on as it is, an error is shown to the step.
pub proof fn lemma_dag_catch<
    R,
    In,
    T,
    E,
    Prev: ChainCall<R, In, Out = Result<T, E>>,
    S: for<'a> StepCall<R, &'a E, Out = ()>,
>(
    node: DagCatchNode<Prev, S, T, E>,
    world: World<R>,
    input: In,
    after: DagCatchNode<Prev, S, T, E>,
    world_after: World<R>,
    out: Option<T>,
)
    requires
        node.call_post(world, input, after, world_after, out),
    ensures
        match out {
            Some(val) => after.step == node.step
                && node.prev.call_post(world, input, after.prev, world_after, Ok::<T, E>(val)),
            None => exists|world_mid: World<R>, e: E|
                #[trigger] node.prev.call_post(world, input, after.prev, world_mid, Err::<T, E>(e))
                    && node.step.call_post(world_mid, &e, after.step, world_after, ()),
        },
{
}

/// Where the chain before it gives a value, the step is not called, and the value is handed on.
pub proof fn lemma_map_err_ok<
    R,
    In,
    T,
    E,
    E2,
    Prev: ChainCall<R, In, Out = Result<T, E>>,
    S: StepCall<R, E, Out = E2>,
>(
    node: MapErrNode<Prev, S, T, E>,
    world: World<R>,
    input: In,
    after: MapErrNode<Prev, S, T, E>,
    world_after: World<R>,
    out: Result<T, E2>,
)
    requires
        node.call_post(world, input, after, world_after, out),
        forall|prev: Prev, world_mid: World<R>, e: E|
            !#[trigger] node.prev.call_post(world, input, prev, world_mid, Err(e)),
    ensures
        out is Ok,
        after.step == node.step,
        node.prev.call_post(world, input, after.prev, world_after, Ok::<T, E>(out->Ok_0)),
{
}

/// Where the chain before it gives a value, the producer is not called, and the value is handed on.
pub proof fn lemma_unwrap_or_else_some<
    R,
    In,
    T,
    Prev: ChainCall<R, In, Out = Option<T>>,
    S: ProducerCall<R, Out = T>,
>(
    node: UnwrapOrElseOptionNode<Prev, S, T>,
    world: World<R>,
    input: In,
    after: UnwrapOrElseOptionNode<Prev, S, T>,
    world_after: World<R>,
    out: T,
)
    requires
        node.call_post(world, input, after, world_after, out),
        forall|prev: Prev, world_mid: World<R>|
            !#[trigger] node.prev.call_post(world, input, prev, world_mid, None::<T>),
    ensures
        after.producer == node.producer,
        node.prev.call_post(world, input, after.prev, world_after, Some(out)),
{
}

/// Where the chain before it gives a value, the step is not called, and the value is handed on.
pub proof fn lemma_or_else_ok<
    R,
    In,
    T,
    E,
    E2,
    Prev: ChainCall<R, In, Out = Result<T, E>>,
    S: StepCall<R, E, Out = Result<T, E2>>,
>(
    node: OrElseNode<Prev, S, T, E, E2>,
    world: World<R>,
    input: In,
    after: OrElseNode<Prev, S, T, E, E2>,
    world_after: World<R>,
    out: Result<T, E2>,
)
    requires
        node.call_post(world, input, after, world_after, out),
        forall|prev: Prev, world_mid: World<R>, e: E|
            !#[trigger] node.prev.call_post(world, input, prev, world_mid, Err(e)),
    ensures
        out is Ok,
        after.step == node.step,
        node.prev.call_post(world, input, after.prev, world_after, Ok::<T, E>(out->Ok_0)),
{
}

/// Where the chain before it gives a value, the producer is not called, and the value is handed on.
pub proof fn lemma_ok_or_else_some<
    R,
    In,
    T,
    E,
    Prev: ChainCall<R, In, Out = Option<T>>,
    S: ProducerCall<R, Out = E>,
>(
    node: OkOrElseNode<Prev, S, T>,
    world: World<R>,
    input: In,
    after: OkOrElseNode<Prev, S, T>,
    world_after: World<R>,
    out: Result<T, E>,
)
    requires
        node.call_post(world, input, after, world_after, out),
        forall|prev: Prev, world_mid: World<R>|
            !#[trigger] node.prev.call_post(world, input, prev, world_mid, None::<T>),
    ensures
        out is Ok,
        after.producer == node.producer,
        node.prev.call_post(world, input, after.prev, world_after, Some(out->Ok_0)),
{
}

/// Where the chain before it gives a value, the step is not called, and the value is handed on.
pub proof fn lemma_unwrap_or_else_ok<
    R,
    In,
    T,
    E,
    Prev: ChainCall<R, In, Out = Result<T, E>>,
    S: StepCall<R, E, Out = T>,
>(
    node: UnwrapOrElseResultNode<Prev, S, T, E>,
    world: World<R>,
    input: In,
    after: UnwrapOrElseResultNode<Prev, S, T, E>,
    world_after: World<R>,
    out: T,
)
    requires
        node.call_post(world, input, after, world_after, out),
        forall|prev: Prev, world_mid: World<R>, e: E|
            !#[trigger] node.prev.call_post(world, input, prev, world_mid, Err(e)),
    ensures
        after.step == node.step,
        node.prev.call_post(world, input, after.prev, world_after, Ok::<T, E>(out)),
{
}

/// A tee hands the value on as it is, after it was shown to the side chain.
pub proof fn lemma_tee<
    R,
    In,
    T,
    Prev: ChainCall<R, In, Out = T>,
    C: for<'a> ChainCall<R, &'a T, Out = ()>,
>(
    node: TeeNode<Prev, C>,
    world: World<R>,
    input: In,
    after: TeeNode<Prev, C>,
    world_after: World<R>,
    out: T,
)
    requires
        node.call_post(world, input, after, world_after, out),
    ensures
        exists|world_mid: World<R>|
            #[trigger] node.prev.call_post(world, input, after.prev, world_mid, out)
                && node.side.call_post(world_mid, &out, after.side, world_after, ()),
{
}

/// A conjunction does not call the producer where the value is false.
pub proof fn lemma_and_stops<
    R,
    In,
    Prev: ChainCall<R, In, Out = bool>,
    S: ProducerCall<R, Out = bool>,
>(
    node: AndBoolNode<Prev, S>,
    world: World<R>,
    input: In,
    after: AndBoolNode<Prev, S>,
    world_after: World<R>,
    out: bool,
)
    requires
        node.call_post(world, input, after, world_after, out),
        forall|prev: Prev, world_mid: World<R>|
            !#[trigger] node.prev.call_post(world, input, prev, world_mid, true),
    ensures
        !out,
        after.producer == node.producer,
        node.prev.call_post(world, input, after.prev, world_after, false),
{
}

/// A disjunction does not call the producer where the value is true.
pub proof fn lemma_or_stops<
    R,
    In,
    Prev: ChainCall<R, In, Out = bool>,
    S: ProducerCall<R, Out = bool>,
>(
    node: OrBoolNode<Prev, S>,
    world: World<R>,
    input: In,
    after: OrBoolNode<Prev, S>,
    world_after: World<R>,
    out: bool,
)
    requires
        node.call_post(world, input, after, world_after, out),
        forall|prev: Prev, world_mid: World<R>|
            !#[trigger] node.prev.call_post(world, input, prev, world_mid, false),
    ensures
        out,
        after.producer == node.producer,
        node.prev.call_post(world, input, after.prev, world_after, true),
{
}

/// An exclusive disjunction always calls the producer.
pub proof fn lemma_xor_calls_both<
    R,
    In,
    Prev: ChainCall<R, In, Out = bool>,
    S: ProducerCall<R, Out = bool>,
>(
    node: XorBoolNode<Prev, S>,
    world: World<R>,
    input: In,
    after: XorBoolNode<Prev, S>,
    world_after: World<R>,
    out: bool,
)
    requires
        node.call_post(world, input, after, world_after, out),
    ensures
        exists|world_mid: World<R>, val: bool|
            #[trigger] node.prev.call_post(world, input, after.prev, world_mid, val)
                && node.producer.call_post(world_mid, after.producer, world_after, val != out),
{
}

/// The chain that the predicate decides for gives the result, and the other is not called.
pub proof fn lemma_route<
    R,
    In,
    T,
    U,
    Prev: ChainCall<R, In, Out = T>,
    P: RefStepCall<R, T, Out = bool>,
    C0: ChainCall<R, T, Out = U>,
    C1: ChainCall<R, T, Out = U>,
>(
    node: RouteNode<Prev, P, C0, C1>,
    world: World<R>,
    input: In,
    after: RouteNode<Prev, P, C0, C1>,
    world_after: World<R>,
    out: U,
)
    requires
        node.call_post(world, input, after, world_after, out),
    ensures
        exists|world_mid: World<R>, val: T, world_arm: World<R>, side: bool|
            #[trigger] node.prev.call_post(world, input, after.prev, world_mid, val)
                && #[trigger] node.pred.call_post(world_mid, &val, after.pred, world_arm, side)
                && if side {
                    node.on_true.call_post(world_arm, val, after.on_true, world_after, out)
                        && after.on_false == node.on_false
                } else {
                    node.on_false.call_post(world_arm, val, after.on_false, world_after, out)
                        && after.on_true == node.on_true
                },
{
}

/// The arm that the predicate decides for gives the result, and the other is not called.
pub proof fn lemma_dag_route<
    R,
    In,
    T,
    U,
    Prev: ChainCall<R, In, Out = T>,
    P: RefStepCall<R, T, Out = bool>,
    C0: for<'a> ChainCall<R, &'a T, Out = U>,
    C1: for<'a> ChainCall<R, &'a T, Out = U>,
>(
    node: DagRouteNode<Prev, P, C0, C1, U>,
    world: World<R>,
    input: In,
    after: DagRouteNode<Prev, P, C0, C1, U>,
    world_after: World<R>,
    out: U,
)
    requires
        node.call_post(world, input, after, world_after, out),
    ensures
        exists|world_mid: World<R>, val: T, world_arm: World<R>, side: bool|
            #[trigger] node.prev.call_post(world, input, after.prev, world_mid, val)
                && #[trigger] node.pred.call_post(world_mid, &val, after.pred, world_arm, side)
                && if side {
                    node.on_true.call_post(world_arm, &val, after.on_true, world_after, out)
                        && after.on_false == node.on_false
                } else {
                    node.on_false.call_post(world_arm, &val, after.on_false, world_after, out)
                        && after.on_true == node.on_true
                },
{
}

/// A value is dropped exactly where it equals the one before it. Of values whose `==` is decided
/// by `eq_spec`, is symmetric and transitive, and holds between a clone and its source.
pub proof fn lemma_dedup<T: PartialEq + Clone>(
    last: Option<T>,
    val: T,
    kept: Option<T>,
    first: Option<T>,
    next: T,
    after: Option<T>,
    second: Option<T>,
)
    requires
        T::obeys_eq_spec(),
        forall|a: T, b: T| #[trigger] a.eq_spec(&b) ==> b.eq_spec(&a),
        forall|a: T, b: T, c: T| #[trigger] a.eq_spec(&b) && #[trigger] b.eq_spec(&c)
            ==> a.eq_spec(&c),
        forall|a: T, b: T| #[trigger] cloned(a, b) ==> a.eq_spec(&b),
        dedup_post(last, val, kept, first),
        dedup_post(kept, next, after, second),
    ensures
        first is None <==> last is Some && last->0.eq_spec(&val),
        first is Some ==> first->0 == val,
        kept is Some && kept->0.eq_spec(&val),
        second is None <==> val.eq_spec(&next),
        second is Some ==> second->0 == next,
{
    assert(kept->0.eq_spec(&val));
    assert(val.eq_spec(&kept->0));
    if second is None {
        assert(kept->0.eq_spec(&next));
    }
}

} // verus!
