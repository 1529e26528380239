//! Handlers of events, and the marks of the shapes of function.
use crate::step::{IntoStep, StepCall};
use crate::world::{Registry, World};
use vstd::prelude::*;

verus! {

/// Marks a function that is handed the whole world.
pub struct Opaque {}

/// A function without an event argument, where the event is `()`.
pub struct NoEvent<F>(pub F);

/// Wraps a function that takes no event.
pub fn no_event<F>(f: F) -> (wrapped: NoEvent<F>)
    ensures
        wrapped.0 == f,
{
    NoEvent(f)
}

/// Handles events of type `E`.
pub trait Handler<R, E> {
    /// When an event may be handed over.
    spec fn run_pre(&self, world: World<R>, event: E) -> bool;

    /// What handling an event may lead to.
    spec fn run_post(
        &self,
        world: World<R>,
        event: E,
        after: &Self,
        world_after: World<R>,
    ) -> bool where Self: Sized;

    /// Handles an event.
    fn handle(&mut self, world: &mut World<R>, event: E) where Self: Sized
        requires
            old(self).run_pre(*old(world), event),
        ensures
            old(self).run_post(*old(world), event, &*final(self), *final(world)),
    ;

    /// Handles an event, also where the type of the handler is not known.
    fn run(&mut self, world: &mut World<R>, event: E)
        requires
            old(self).run_pre(*old(world), event),
    ;

    /// A name for diagnostics.
    fn name(&self) -> (name: &'static str)
        default_ensures
            name@ == "<unnamed>"@,
    {
        "<unnamed>"
    }
}

/// A handler that is made of a step.
pub struct FnHandler<S> {
    pub step: S,
}

impl<R, E, S: StepCall<R, E, Out = ()>> Handler<R, E> for FnHandler<S> {
    open spec fn run_pre(&self, world: World<R>, event: E) -> bool {
        self.step.call_pre(world, event)
    }

    open spec fn run_post(
        &self,
        world: World<R>,
        event: E,
        after: &Self,
        world_after: World<R>,
    ) -> bool {
        self.step.call_post(world, event, after.step, world_after, ())
    }

    fn handle(&mut self, world: &mut World<R>, event: E) {
        self.step.call(world, event)
    }

    fn run(&mut self, world: &mut World<R>, event: E)
        ensures
            old(self).run_post(*old(world), event, &*final(self), *final(world)),
    {
        self.step.call(world, event)
    }
}

/// Turns a function into a [`Handler`]. `Params` tells the shapes of function apart.
pub trait IntoHandler<R, E, Params>: Sized {
    type Handler: Handler<R, E>;

    /// The handler that the function stands for.
    spec fn handling(self) -> Self::Handler;

    fn into_handler(self, registry: &Registry<R>) -> (handler: Self::Handler)
        ensures
            handler == self.handling(),
    ;
}

impl<R, E, Params, F: IntoStep<R, E, (), Params>> IntoHandler<R, E, Params> for F {
    type Handler = FnHandler<F::Step>;

    open spec fn handling(self) -> FnHandler<F::Step> {
        FnHandler { step: self.resolved() }
    }

    fn into_handler(self, registry: &Registry<R>) -> (handler: FnHandler<F::Step>) {
        FnHandler { step: self.into_step(registry) }
    }
}

} // verus!
