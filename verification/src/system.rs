//! Systems: functions of the world that tell whether what depends on them is to run.
use crate::step::{IntoProducer, ProducerCall};
use crate::world::{Registry, World};
use std::marker::PhantomData;
use vstd::prelude::*;

verus! {

/// A unit of work on the world.
pub trait System<R> {
    /// When the system may run.
    spec fn run_pre(&self, world: World<R>) -> bool;

    /// What a run may lead to, and whether it fires what depends on the system.
    spec fn run_post(
        &self,
        world: World<R>,
        after: &Self,
        world_after: World<R>,
        fired: bool,
    ) -> bool;

    fn run(&mut self, world: &mut World<R>) -> (fired: bool)
        requires
            old(self).run_pre(*old(world)),
        ensures
            old(self).run_post(*old(world), &*final(self), *final(world), fired),
    ;
}

/// Turns a function into a [`System`]. `Params` tells the shapes of function apart.
pub trait IntoSystem<R, Params>: Sized {
    type System: System<R>;

    /// The system that the function stands for.
    spec fn resolved(self) -> Self::System;

    fn into_system(self, registry: &Registry<R>) -> (system: Self::System)
        ensures
            system == self.resolved(),
    ;
}

/// A system that tells itself whether it fires.
pub struct FiringSystem<S> {
    pub step: S,
}

/// A system that gives no answer, and always fires.
pub struct SilentSystem<S> {
    pub step: S,
}

/// Marks a function that tells whether it fires.
pub struct Firing<P> {
    pub marker: PhantomData<P>,
}

/// Marks a function that gives no answer.
pub struct Silent<P> {
    pub marker: PhantomData<P>,
}

impl<R, S: ProducerCall<R, Out = bool>> System<R> for FiringSystem<S> {
    open spec fn run_pre(&self, world: World<R>) -> bool {
        self.step.call_pre(world)
    }

    open spec fn run_post(
        &self,
        world: World<R>,
        after: &Self,
        world_after: World<R>,
        fired: bool,
    ) -> bool {
        self.step.call_post(world, after.step, world_after, fired)
    }

    fn run(&mut self, world: &mut World<R>) -> (fired: bool) {
        self.step.call(world)
    }
}

impl<R, S: ProducerCall<R, Out = ()>> System<R> for SilentSystem<S> {
    open spec fn run_pre(&self, world: World<R>) -> bool {
        self.step.call_pre(world)
    }

    open spec fn run_post(
        &self,
        world: World<R>,
        after: &Self,
        world_after: World<R>,
        fired: bool,
    ) -> bool {
        self.step.call_post(world, after.step, world_after, ()) && fired
    }

    fn run(&mut self, world: &mut World<R>) -> (fired: bool) {
        self.step.call(world);
        true
    }
}

/// A system that answers runs its function once and fires as the function answers. A system that
/// gives no answer runs its function once and fires always.
pub proof fn lemma_systems_fire<R, A: ProducerCall<R, Out = bool>, S: ProducerCall<R, Out = ()>>(
    firing: FiringSystem<A>,
    silent: SilentSystem<S>,
    world: World<R>,
    firing_after: FiringSystem<A>,
    silent_after: SilentSystem<S>,
    world_after: World<R>,
    fired: bool,
)
    ensures
        firing.run_pre(world) <==> firing.step.call_pre(world),
        silent.run_pre(world) <==> silent.step.call_pre(world),
        firing.run_post(world, &firing_after, world_after, fired) ==> firing.step.call_post(
            world,
            firing_after.step,
            world_after,
            fired,
        ),
        silent.run_post(world, &silent_after, world_after, fired) ==> fired
            && silent.step.call_post(world, silent_after.step, world_after, ()),
{
}

impl<R, P, F: IntoProducer<R, bool, P>> IntoSystem<R, Firing<P>> for F {
    type System = FiringSystem<F::Step>;

    open spec fn resolved(self) -> FiringSystem<F::Step> {
        FiringSystem { step: IntoProducer::resolved(self) }
    }

    fn into_system(self, registry: &Registry<R>) -> (system: FiringSystem<F::Step>) {
        FiringSystem { step: self.into_producer(registry) }
    }
}

impl<R, P, F: IntoProducer<R, (), P>> IntoSystem<R, Silent<P>> for F {
    type System = SilentSystem<F::Step>;

    open spec fn resolved(self) -> SilentSystem<F::Step> {
        SilentSystem { step: IntoProducer::resolved(self) }
    }

    fn into_system(self, registry: &Registry<R>) -> (system: SilentSystem<F::Step>) {
        SilentSystem { step: self.into_producer(registry) }
    }
}

} // verus!
