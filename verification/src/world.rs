//! The world: the resources that steps, handlers and systems share.
//!
//! The resources form a list, one cell per resource, so that a resource is found by its type.
//! `Here` and `There` name a position in that list; they are inferred wherever a type occurs
//! once in the list.
use std::marker::PhantomData;
use vstd::prelude::*;

verus! {

/// A list of resources: `value` at its head, then those of `rest`.
pub struct With<T, Rest> {
    pub value: T,
    pub rest: Rest,
}

/// The position of a list's head.
pub struct Here {}

/// The position `I` in the rest of a list.
pub struct There<I> {
    pub index: PhantomData<I>,
}

/// Marks a function that reads the resource of type `T`.
pub struct Res<T, I> {
    pub marker: PhantomData<(T, I)>,
}

/// Marks a function that may change the resource of type `T`.
pub struct ResMut<T, I> {
    pub marker: PhantomData<(T, I)>,
}

/// A collection of resources that holds one of type `T`, at position `I`.
pub trait Resource<T, I>: Sized {
    /// The resource.
    spec fn held(&self) -> T;

    /// The same collection with `value` in the resource's place.
    spec fn holding(&self, value: T) -> Self;

    fn get(&self) -> (r: &T)
        ensures
            *r == self.held(),
    ;

    fn get_mut(&mut self) -> (r: &mut T)
        ensures
            *r == old(self).held(),
            *final(self) == old(self).holding(*final(r)),
    ;

    /// A resource that was put is the one found, putting back what is found changes nothing,
    /// and the last of two puts counts.
    proof fn lemma_resource(&self, value: T, next: T)
        ensures
            self.holding(value).held() == value,
            self.holding(self.held()) == *self,
            self.holding(value).holding(next) == self.holding(next),
    ;
}

impl<T, Rest> Resource<T, Here> for With<T, Rest> {
    open spec fn held(&self) -> T {
        self.value
    }

    open spec fn holding(&self, value: T) -> Self {
        With { value, rest: self.rest }
    }

    fn get(&self) -> (r: &T) {
        &self.value
    }

    fn get_mut(&mut self) -> (r: &mut T) {
        &mut self.value
    }

    proof fn lemma_resource(&self, value: T, next: T) {
    }
}

impl<T, U, I, Rest: Resource<T, I>> Resource<T, There<I>> for With<U, Rest> {
    open spec fn held(&self) -> T {
        self.rest.held()
    }

    open spec fn holding(&self, value: T) -> Self {
        With { value: self.value, rest: self.rest.holding(value) }
    }

    fn get(&self) -> (r: &T) {
        self.rest.get()
    }

    fn get_mut(&mut self) -> (r: &mut T) {
        self.rest.get_mut()
    }

    proof fn lemma_resource(&self, value: T, next: T) {
        self.rest.lemma_resource(value, next);
    }
}

/// A collection of resources that holds a `T` at position `I` and a `U` at another position `J`.
pub trait Apart<T, I, U, J>: Resource<T, I> + Resource<U, J> {
    /// Both resources, to be changed.
    fn get_both(&mut self) -> (r: (&mut T, &mut U))
        ensures
            *r.0 == <Self as Resource<T, I>>::held(old(self)),
            *r.1 == <Self as Resource<U, J>>::held(old(self)),
            *final(self) == <Self as Resource<U, J>>::holding(
                &<Self as Resource<T, I>>::holding(old(self), *final(r.0)),
                *final(r.1),
            ),
    ;

    /// Both resources, the second to be changed.
    fn get_beside(&mut self) -> (r: (&T, &mut U))
        ensures
            *r.0 == <Self as Resource<T, I>>::held(old(self)),
            *r.1 == <Self as Resource<U, J>>::held(old(self)),
            *final(self) == <Self as Resource<U, J>>::holding(old(self), *final(r.1)),
    ;

    /// Putting one of the two resources leaves the other as it is, and the order in which both
    /// are put does not matter.
    proof fn lemma_apart(&self, first: T, second: U)
        ensures
            <Self as Resource<T, I>>::held(&<Self as Resource<U, J>>::holding(self, second))
                == <Self as Resource<T, I>>::held(self),
            <Self as Resource<U, J>>::held(&<Self as Resource<T, I>>::holding(self, first))
                == <Self as Resource<U, J>>::held(self),
            <Self as Resource<T, I>>::holding(
                &<Self as Resource<U, J>>::holding(self, second),
                first,
            )
                == <Self as Resource<U, J>>::holding(
                    &<Self as Resource<T, I>>::holding(self, first),
                    second,
                ),
    ;
}

impl<T, U, J, Rest: Resource<U, J>> Apart<T, Here, U, There<J>> for With<T, Rest> {
    fn get_both(&mut self) -> (r: (&mut T, &mut U)) {
        (&mut self.value, self.rest.get_mut())
    }

    fn get_beside(&mut self) -> (r: (&T, &mut U)) {
        (&self.value, self.rest.get_mut())
    }

    proof fn lemma_apart(&self, first: T, second: U) {
    }
}

impl<T, I, U, Rest: Resource<T, I>> Apart<T, There<I>, U, Here> for With<U, Rest> {
    fn get_both(&mut self) -> (r: (&mut T, &mut U)) {
        (self.rest.get_mut(), &mut self.value)
    }

    fn get_beside(&mut self) -> (r: (&T, &mut U)) {
        (self.rest.get(), &mut self.value)
    }

    proof fn lemma_apart(&self, first: T, second: U) {
    }
}

impl<T, I, U, J, V, Rest: Apart<T, I, U, J>> Apart<T, There<I>, U, There<J>> for With<V, Rest> {
    fn get_both(&mut self) -> (r: (&mut T, &mut U)) {
        self.rest.get_both()
    }

    fn get_beside(&mut self) -> (r: (&T, &mut U)) {
        self.rest.get_beside()
    }

    proof fn lemma_apart(&self, first: T, second: U) {
        self.rest.lemma_apart(first, second);
    }
}

/// A collection of resources that holds a `T`, a `U` and a `V`, each at a position of its own.
pub trait Apart3<T, I, U, J, V, K>: Apart<T, I, U, J> + Apart<U, J, V, K> + Apart<T, I, V, K> {
    /// All three resources, to be changed.
    fn get_three(&mut self) -> (r: (&mut T, &mut U, &mut V))
        ensures
            *r.0 == <Self as Resource<T, I>>::held(old(self)),
            *r.1 == <Self as Resource<U, J>>::held(old(self)),
            *r.2 == <Self as Resource<V, K>>::held(old(self)),
            *final(self) == <Self as Resource<V, K>>::holding(
                &<Self as Resource<U, J>>::holding(
                    &<Self as Resource<T, I>>::holding(old(self), *final(r.0)),
                    *final(r.1),
                ),
                *final(r.2),
            ),
    ;
}

impl<
    T,
    U,
    J,
    V,
    K,
    Rest: Apart<U, J, V, K>,
> Apart3<T, Here, U, There<J>, V, There<K>> for With<T, Rest> {
    fn get_three(&mut self) -> (r: (&mut T, &mut U, &mut V)) {
        let (second, third): (&mut U, &mut V) = self.rest.get_both();
        (&mut self.value, second, third)
    }
}

impl<
    T,
    I,
    U,
    V,
    K,
    Rest: Apart<T, I, V, K>,
> Apart3<T, There<I>, U, Here, V, There<K>> for With<U, Rest> {
    fn get_three(&mut self) -> (r: (&mut T, &mut U, &mut V)) {
        let (first, third): (&mut T, &mut V) = self.rest.get_both();
        (first, &mut self.value, third)
    }
}

impl<
    T,
    I,
    U,
    J,
    V,
    Rest: Apart<T, I, U, J>,
> Apart3<T, There<I>, U, There<J>, V, Here> for With<V, Rest> {
    fn get_three(&mut self) -> (r: (&mut T, &mut U, &mut V)) {
        let (first, second): (&mut T, &mut U) = self.rest.get_both();
        (first, second, &mut self.value)
    }
}

impl<
    T,
    I,
    U,
    J,
    V,
    K,
    W,
    Rest: Apart3<T, I, U, J, V, K>,
> Apart3<T, There<I>, U, There<J>, V, There<K>> for With<W, Rest> {
    fn get_three(&mut self) -> (r: (&mut T, &mut U, &mut V)) {
        self.rest.get_three()
    }
}

/// Stands for the resources of a world while steps are resolved against it.
pub struct Registry<R> {
    pub marker: PhantomData<R>,
}

/// Something that is set up while a world is built, and then driven by its poller.
pub trait Installer<R>: Sized {
    type Poller;

    /// The poller of what was set up.
    spec fn installed(self) -> Self::Poller;

    fn install(self, builder: &mut WorldBuilder<R>) -> (poller: Self::Poller)
        ensures
            poller == self.installed(),
            *final(builder) == *old(builder),
    ;
}

/// Collects the resources of a world.
pub struct WorldBuilder<R> {
    pub resources: R,
    pub registry: Registry<R>,
}

impl WorldBuilder<()> {
    pub fn new() -> (builder: WorldBuilder<()>)
        ensures
            builder.resources == (),
    {
        WorldBuilder { resources: (), registry: Registry { marker: PhantomData } }
    }
}

impl<R> WorldBuilder<R> {
    /// Adds a resource.
    pub fn register<T>(self, value: T) -> (builder: WorldBuilder<With<T, R>>)
        ensures
            builder.resources == (With { value, rest: self.resources }),
    {
        WorldBuilder {
            resources: With { value, rest: self.resources },
            registry: Registry { marker: PhantomData },
        }
    }

    pub fn registry(&self) -> (registry: &Registry<R>)
        ensures
            *registry == self.registry,
    {
        &self.registry
    }

    /// Sets up a driver and returns its poller.
    pub fn install_driver<D: Installer<R>>(&mut self, driver: D) -> (poller: D::Poller)
        ensures
            poller == driver.installed(),
            *final(self) == *old(self),
    {
        driver.install(self)
    }

    pub fn build(self) -> (world: World<R>)
        ensures
            world.resources == self.resources,
            world.sequence == 0,
    {
        World { resources: self.resources, registry: Registry { marker: PhantomData }, sequence: 0 }
    }
}

/// The resources, and the number of the event that is being dispatched.
pub struct World<R> {
    pub resources: R,
    pub registry: Registry<R>,
    pub sequence: u64,
}

impl<R> World<R> {
    /// The resource of type `T`.
    pub open spec fn held<T, I>(self) -> T where R: Resource<T, I> {
        self.resources.held()
    }

    /// The same world with `value` as its resource of type `T`.
    pub open spec fn holding<T, I>(self, value: T) -> World<R> where R: Resource<T, I> {
        World { resources: self.resources.holding(value), ..self }
    }

    pub fn registry(&self) -> (registry: &Registry<R>)
        ensures
            *registry == self.registry,
    {
        &self.registry
    }

    pub fn resource<T, I>(&self) -> (r: &T) where R: Resource<T, I>
        ensures
            *r == self.held::<T, I>(),
    {
        self.resources.get()
    }

    pub fn resource_mut<T, I>(&mut self) -> (r: &mut T) where R: Resource<T, I>
        ensures
            *r == old(self).held::<T, I>(),
            *final(self) == old(self).holding::<T, I>(*final(r)),
    {
        self.resources.get_mut()
    }

    /// Two resources, to be changed.
    pub fn both_mut<T, I, U, J>(&mut self) -> (r: (&mut T, &mut U)) where R: Apart<T, I, U, J>
        ensures
            *r.0 == old(self).held::<T, I>(),
            *r.1 == old(self).held::<U, J>(),
            *final(self) == old(self).holding::<T, I>(*final(r.0)).holding::<U, J>(*final(r.1)),
    {
        self.resources.get_both()
    }

    /// Two resources, the second to be changed.
    pub fn beside_mut<T, I, U, J>(&mut self) -> (r: (&T, &mut U)) where R: Apart<T, I, U, J>
        ensures
            *r.0 == old(self).held::<T, I>(),
            *r.1 == old(self).held::<U, J>(),
            *final(self) == old(self).holding::<U, J>(*final(r.1)),
    {
        self.resources.get_beside()
    }

    /// Three resources, to be changed.
    pub fn three_mut<T, I, U, J, V, K>(
        &mut self,
    ) -> (r: (&mut T, &mut U, &mut V)) where R: Apart3<T, I, U, J, V, K>
        ensures
            *r.0 == old(self).held::<T, I>(),
            *r.1 == old(self).held::<U, J>(),
            *r.2 == old(self).held::<V, K>(),
            *final(self) == old(self).holding::<T, I>(*final(r.0)).holding::<U, J>(
                *final(r.1),
            ).holding::<V, K>(*final(r.2)),
    {
        self.resources.get_three()
    }

    /// Three resources, the second and the third to be changed.
    pub fn beside_both_mut<T, I, U, J, V, K>(
        &mut self,
    ) -> (r: (&T, &mut U, &mut V)) where R: Apart3<T, I, U, J, V, K>
        ensures
            *r.0 == old(self).held::<T, I>(),
            *r.1 == old(self).held::<U, J>(),
            *r.2 == old(self).held::<V, K>(),
            *final(self) == old(self).holding::<U, J>(*final(r.1)).holding::<V, K>(*final(r.2)),
    {
        let ghost first = self.held::<T, I>();
        proof {
            <R as Resource<T, I>>::lemma_resource(&self.resources, first, first);
        }
        let (first, second, third): (&mut T, &mut U, &mut V) = self.resources.get_three();
        (&*first, second, third)
    }

    /// Three resources, the third to be changed.
    pub fn beside_two_mut<T, I, U, J, V, K>(
        &mut self,
    ) -> (r: (&T, &U, &mut V)) where R: Apart3<T, I, U, J, V, K>
        ensures
            *r.0 == old(self).held::<T, I>(),
            *r.1 == old(self).held::<U, J>(),
            *r.2 == old(self).held::<V, K>(),
            *final(self) == old(self).holding::<V, K>(*final(r.2)),
    {
        let ghost first = self.held::<T, I>();
        let ghost second = self.held::<U, J>();
        proof {
            <R as Resource<T, I>>::lemma_resource(&self.resources, first, first);
            <R as Resource<U, J>>::lemma_resource(&self.resources, second, second);
        }
        let (first, second, third): (&mut T, &mut U, &mut V) = self.resources.get_three();
        (&*first, &*second, third)
    }

    pub fn current_sequence(&self) -> (sequence: u64)
        ensures
            sequence == self.sequence,
    {
        self.sequence
    }
}

/// A resource that is put into a world is the one found there, putting back what is found changes
/// nothing, and the last of two puts counts. Neither the sequence number changes nor the registry.
pub proof fn lemma_world<R, T, I>(world: World<R>, value: T, next: T) where R: Resource<T, I>
    ensures
        world.holding::<T, I>(value).held::<T, I>() == value,
        world.holding::<T, I>(world.held::<T, I>()) == world,
        world.holding::<T, I>(value).holding::<T, I>(next) == world.holding::<T, I>(next),
        world.holding::<T, I>(value).sequence == world.sequence,
        world.holding::<T, I>(value).registry == world.registry,
{
    world.resources.lemma_resource(value, next);
}

/// Putting one resource leaves another as it is, and the order of two puts does not matter.
pub proof fn lemma_world_apart<R, T, I, U, J>(
    world: World<R>,
    first: T,
    second: U,
) where R: Apart<T, I, U, J>
    ensures
        world.holding::<T, I>(first).held::<U, J>() == world.held::<U, J>(),
        world.holding::<U, J>(second).held::<T, I>() == world.held::<T, I>(),
        world.holding::<T, I>(first).holding::<U, J>(second) == world.holding::<U, J>(
            second,
        ).holding::<T, I>(first),
{
    world.resources.lemma_apart(first, second);
}

} // verus!
