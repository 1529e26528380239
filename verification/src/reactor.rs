//! Reactors: units of work that are woken by the data sources they subscribe to.
use crate::ctx_step::{CtxProducerCall, CtxStepCall, IntoCtxProducer};
use crate::interests::{
    interest_lists, interest_vacated, interests_contains, interests_get, interests_get_mut,
    interests_insert, interests_len, interests_remove, interests_with_capacity,
};
use crate::keys::{keys_wf, lemma_handed_out, lemma_taken_back, KeySpace};
use crate::notify::{marked_all, Events, LocalNotify, Token};
use crate::reactor_model::{lemma_without, without, DataSource, NotifyModel};
use crate::world::{Apart, Apart3, Registry, Resource, World};
use slab::Slab;
use std::marker::PhantomData;
use vstd::prelude::*;

verus! {

fn retain_tokens(v: &mut Vec<Token>, x: Token)
    ensures
        final(v)@ == without(old(v)@, x),
{
    let mut kept: Vec<Token> = Vec::new();
    let mut i: usize = 0;
    assert(v@.take(0) =~= Seq::<Token>::empty());
    while i < v.len()
        invariant
            i <= v@.len(),
            v@ == old(v)@,
            kept@ == without(v@.take(i as int), x),
        decreases v@.len() - i,
    {
        let t: Token = v[i];
        assert(v@.take(i + 1).drop_last() =~= v@.take(i as int));
        if t != x {
            kept.push(t);
        }
        i = i + 1;
    }
    assert(v@.take(i as int) =~= v@);
    *v = kept;
}

fn retain_sources(v: &mut Vec<DataSource>, x: DataSource)
    ensures
        final(v)@ == without(old(v)@, x),
{
    let mut kept: Vec<DataSource> = Vec::new();
    let mut i: usize = 0;
    assert(v@.take(0) =~= Seq::<DataSource>::empty());
    while i < v.len()
        invariant
            i <= v@.len(),
            v@ == old(v)@,
            kept@ == without(v@.take(i as int), x),
        decreases v@.len() - i,
    {
        let s: DataSource = v[i];
        assert(v@.take(i + 1).drop_last() =~= v@.take(i as int));
        if s != x {
            kept.push(s);
        }
        i = i + 1;
    }
    assert(v@.take(i as int) =~= v@);
    *v = kept;
}

fn holds_token(v: &Vec<Token>, x: Token) -> (found: bool)
    ensures
        found == v@.contains(x),
{
    let mut i: usize = 0;
    while i < v.len()
        invariant
            i <= v@.len(),
            forall|k: int| 0 <= k < i ==> v@[k] != x,
        decreases v@.len() - i,
    {
        if v[i] == x {
            return true;
        }
        i = i + 1;
    }
    false
}

/// Sources, reactors, and which of them are woken. Lives in the world as a resource.
pub struct ReactorNotify<B> {
    notify: LocalNotify,
    interests: Slab<Vec<Token>>,
    reactor_sources: Vec<Vec<DataSource>>,
    reactor_keys: KeySpace,
    bodies: Vec<Option<B>>,
}

impl<B> View for ReactorNotify<B> {
    type V = NotifyModel<B>;

    closed spec fn view(&self) -> NotifyModel<B> {
        NotifyModel {
            sources: interest_lists(self.interests),
            vacated_sources: interest_vacated(self.interests),
            reactors: Map::new(
                |k: usize| self.reactor_keys.live().contains(k),
                |k: usize| self.bodies@[k as int],
            ),
            vacated_reactors: self.reactor_keys.vacated(),
            index: Seq::new(self.reactor_sources@.len(), |i: int| self.reactor_sources@[i]@),
            woken: self.notify.woken(),
        }
    }
}

impl<B> ReactorNotify<B> {
    /// Every key that was handed out has its entries, and every reactor can be marked.
    pub closed spec fn wf(&self) -> bool {
        &&& self@.wf()
        &&& self.notify.wf()
        &&& keys_wf(self@.sources.dom(), self@.vacated_sources)
        &&& self.reactor_keys.wf()
        &&& self.bodies@.len() == self.reactor_keys.bound()
        &&& self.reactor_sources@.len() == self.bodies@.len()
        &&& self.reactor_sources@.len() <= self.notify.bound()
    }

    proof fn lemma_doms(&self)
        ensures
            self@.reactors.dom() == self.reactor_keys.live(),
    {
        assert(self@.reactors.dom() =~= self.reactor_keys.live());
    }

    /// With room for so many sources and reactors. No more room can be asked for than a vector
    /// of vectors can have.
    pub fn new(source_capacity: usize, reactor_capacity: usize) -> (notify: Self)
        requires
            source_capacity <= isize::MAX / 32,
            reactor_capacity <= isize::MAX / 32,
        ensures
            notify.wf(),
            notify@ == NotifyModel::<B>::empty(),
    {
        let notify = ReactorNotify {
            notify: LocalNotify::with_capacity(reactor_capacity),
            interests: interests_with_capacity(source_capacity),
            reactor_sources: Vec::with_capacity(reactor_capacity),
            reactor_keys: KeySpace::with_capacity(reactor_capacity),
            // How large a body is, is not known here.
            bodies: Vec::new(),
        };
        proof {
            notify.lemma_doms();
            assert(notify@ =~= NotifyModel::<B>::empty());
        }
        notify
    }

    /// Adds a data source. The slot of a source that was removed is used again.
    pub fn register_source(&mut self) -> (source: DataSource)
        requires
            old(self).wf(),
        ensures
            final(self).wf(),
            final(self)@.wf(),
            source.0 as nat == old(self)@.next_source(),
            !old(self)@.sources.dom().contains(source.0),
            final(self)@ == old(self)@.register_source(),
    {
        let key: usize = interests_insert(&mut self.interests, Vec::new());
        proof {
            let before = old(self)@;
            lemma_handed_out(before.sources.dom(), before.vacated_sources, key);
            assert(self@.sources.dom() =~= before.sources.dom().insert(key));
            assert(self@ =~= before.register_source());
        }
        DataSource(key)
    }

    /// Removes a data source and the subscriptions to it.
    pub fn remove_source(&mut self, source: DataSource)
        requires
            old(self).wf(),
        ensures
            final(self).wf(),
            final(self)@.wf(),
            final(self)@ == old(self)@.remove_source(source),
    {
        if interests_contains(&self.interests, source.0) {
            interests_remove(&mut self.interests, source.0);
            proof {
                let before = old(self)@;
                lemma_taken_back(before.sources.dom(), before.vacated_sources, source.0);
                assert(self@.sources.dom() =~= before.sources.dom().remove(source.0));
                assert(self@ =~= before.remove_source(source));
            }
        }
    }

    fn occupy(&mut self, body: Option<B>) -> (token: Token)
        requires
            old(self).wf(),
        ensures
            final(self).wf(),
            final(self)@.wf(),
            token.idx as nat == old(self)@.next_reactor(),
            !old(self)@.reactors.dom().contains(token.idx),
            final(self)@ == old(self)@.create(body),
    {
        let ghost given = body;
        proof {
            self.lemma_doms();
        }
        let key: usize = self.reactor_keys.acquire();
        self.notify.ensure_capacity(key);
        if key == self.bodies.len() {
            self.bodies.push(body);
            self.reactor_sources.push(Vec::new());
        } else {
            self.bodies.set(key, body);
        }
        proof {
            self.lemma_doms();
            assert(self@ =~= old(self)@.create(given));
        }
        Token { idx: key }
    }

    /// Puts a reactor into a slot in use.
    pub(crate) fn put_reactor(&mut self, idx: usize, body: B)
        requires
            old(self).wf(),
            old(self)@.reactors.dom().contains(idx),
        ensures
            final(self).wf(),
            final(self)@.wf(),
            final(self)@ == old(self)@.fill(idx, Some(body)),
    {
        let ghost given = body;
        proof {
            self.lemma_doms();
        }
        self.bodies.set(idx, Some(body));
        proof {
            self.lemma_doms();
            assert(self@ =~= old(self)@.fill(idx, Some(given)));
        }
    }

    /// Takes the reactor out of its slot, if there is one.
    pub(crate) fn take_reactor(&mut self, idx: usize) -> (body: Option<B>)
        requires
            old(self).wf(),
        ensures
            final(self).wf(),
            final(self)@.wf(),
            body == old(self)@.body(idx),
            final(self)@ == old(self)@.taken(idx),
    {
        proof {
            self.lemma_doms();
        }
        if self.reactor_keys.is_live(idx) {
            let body = self.bodies[idx].take();
            proof {
                self.lemma_doms();
                assert(self@ =~= old(self)@.taken(idx));
            }
            body
        } else {
            None
        }
    }

    /// Whether there is a reactor in the slot.
    pub(crate) fn has_reactor(&self, idx: usize) -> (found: bool)
        requires
            self.wf(),
        ensures
            found == (self@.body(idx) is Some),
    {
        proof {
            self.lemma_doms();
        }
        self.reactor_keys.is_live(idx) && self.bodies[idx].is_some()
    }

    /// Subscribes a reactor to a source.
    pub fn subscribe(&mut self, reactor: Token, source: DataSource)
        requires
            old(self).wf(),
            old(self)@.sources.dom().contains(source.0) ==> reactor.idx < old(self)@.index.len(),
        ensures
            final(self).wf(),
            final(self)@.wf(),
            final(self)@ == old(self)@.subscribe(reactor, source),
    {
        if let Some(subscribers) = interests_get_mut(&mut self.interests, source.0) {
            if !holds_token(subscribers, reactor) {
                subscribers.push(reactor);
                self.reactor_sources[reactor.idx].push(source);
                proof {
                    self.lemma_doms();
                    let before = old(self)@;
                    let now = self@;
                    assert(now =~= before.subscribe(reactor, source));
                    let list = before.sources[source.0];
                    assert forall|t: Token| #[trigger] list.push(reactor).contains(t)
                        <==> list.contains(t) || t == reactor by {
                        if list.contains(t) {
                            let i = choose|i: int| 0 <= i < list.len() && list[i] == t;
                            assert(list.push(reactor)[i] == t);
                        }
                        assert(list.push(reactor)[list.len() as int] == reactor);
                    }
                    let known = before.index[reactor.idx as int];
                    assert forall|s: DataSource| #[trigger] known.contains(s)
                        implies known.push(source).contains(s) by {
                        let i = choose|i: int| 0 <= i < known.len() && known[i] == s;
                        assert(known.push(source)[i] == s);
                    }
                    assert(known.push(source)[known.len() as int] == source);
                    assert(source == DataSource(source.0));
                    assert forall|s: usize, t: Token|
                        now.sources.dom().contains(s)
                            && #[trigger] now.sources[s].contains(t) implies t.idx < now.index.len()
                        && now.index[t.idx as int].contains(DataSource(s)) by {
                        if s == source.0 && t == reactor {
                            assert(now.index[t.idx as int] == known.push(source));
                        } else {
                            assert(before.sources[s].contains(t));
                            assert(before.index[t.idx as int].contains(DataSource(s)));
                        }
                    }
                }
            }
        }
    }

    /// Ends a reactor's subscription to a source.
    pub fn unsubscribe(&mut self, reactor: Token, source: DataSource)
        requires
            old(self).wf(),
        ensures
            final(self).wf(),
            final(self)@.wf(),
            final(self)@ == old(self)@.unsubscribe(reactor, source),
    {
        if let Some(subscribers) = interests_get_mut(&mut self.interests, source.0) {
            retain_tokens(subscribers, reactor);
        }
        if reactor.idx < self.reactor_sources.len() {
            retain_sources(&mut self.reactor_sources[reactor.idx], source);
        }
        proof {
            self.lemma_doms();
            let before = old(self)@;
            let now = self@;
            assert(now =~= before.unsubscribe(reactor, source));
            if before.sources.dom().contains(source.0) {
                lemma_without(before.sources[source.0], reactor);
            }
            if reactor.idx < before.index.len() {
                lemma_without(before.index[reactor.idx as int], source);
            }
            assert forall|s: usize, t: Token|
                now.sources.dom().contains(s)
                    && #[trigger] now.sources[s].contains(t) implies t.idx < now.index.len()
                && now.index[t.idx as int].contains(DataSource(s)) by {
                assert(before.sources[s].contains(t));
                if t.idx == reactor.idx {
                    assert(t == reactor);
                    assert(s != source.0);
                }
            }
        }
    }

    /// Wakes the subscribers of a source.
    pub fn mark(&mut self, source: DataSource)
        requires
            old(self).wf(),
        ensures
            final(self).wf(),
            final(self)@.wf(),
            final(self)@ == old(self)@.mark(source),
    {
        if let Some(subscribers) = interests_get(&self.interests, source.0) {
            let ghost tokens = subscribers@;
            let ghost before = self@;
            assert(before.sources[source.0] == tokens);
            assert forall|k: int| 0 <= k < tokens.len()
                implies (#[trigger] tokens[k]).idx < before.index.len() by {
                assert(before.sources[source.0].contains(tokens[k]));
            }
            assert(tokens.take(0) =~= Seq::<Token>::empty());
            let mut i: usize = 0;
            while i < subscribers.len()
                invariant
                    self.notify.wf(),
                    self.notify.bound() == old(self).notify.bound(),
                    self.notify.bound() >= before.index.len(),
                    self.interests == old(self).interests,
                    self.reactor_sources == old(self).reactor_sources,
                    self.reactor_keys == old(self).reactor_keys,
                    self.bodies == old(self).bodies,
                    tokens == subscribers@,
                    i <= tokens.len(),
                    forall|k: int| 0 <= k < tokens.len()
                        ==> (#[trigger] tokens[k]).idx < before.index.len(),
                    self.notify.woken() == marked_all(
                        old(self).notify.woken(),
                        tokens.take(i as int),
                    ),
                decreases tokens.len() - i,
            {
                let token: Token = subscribers[i];
                assert(token == tokens[i as int]);
                self.notify.mark(token);
                assert(tokens.take(i + 1).drop_last() =~= tokens.take(i as int));
                assert(tokens.take(i + 1).last() == token);
                i = i + 1;
            }
            assert(tokens.take(i as int) =~= tokens);
            proof {
                self.lemma_doms();
                assert(self@ =~= before.mark(source));
                before.lemma_mark(source);
            }
        } else {
            assert(self@ =~= old(self)@.mark(source));
        }
    }

    /// Hands the woken reactors to `events`, in place of what it held.
    pub fn poll(&mut self, events: &mut Events)
        requires
            old(self).wf(),
        ensures
            final(self).wf(),
            final(self)@.wf(),
            final(self)@ == old(self)@.polled(),
            final(events).tokens@ == old(self)@.woken,
    {
        self.notify.poll(events);
        proof {
            self.lemma_doms();
            assert(self@ =~= old(self)@.polled());
        }
    }

    /// Removes a reactor and its subscriptions, and gives its slot back.
    pub fn remove_reactor(&mut self, token: Token)
        requires
            old(self).wf(),
        ensures
            final(self).wf(),
            final(self)@.wf(),
            final(self)@ == old(self)@.remove_reactor(token),
    {
        proof {
            self.lemma_doms();
        }
        if self.reactor_keys.is_live(token.idx) {
            let idx: usize = token.idx;
            let ghost before = self@;
            let ghost indexed = self.reactor_sources@[idx as int]@;
            self.reactor_keys.release(idx);
            self.bodies.set(idx, None);
            let mut i: usize = 0;
            while i < self.reactor_sources[idx].len()
                invariant
                    old(self).wf(),
                    before == old(self)@,
                    idx == token.idx,
                    idx < self.reactor_sources@.len(),
                    self.reactor_sources == old(self).reactor_sources,
                    indexed == self.reactor_sources@[idx as int]@,
                    i <= indexed.len(),
                    interest_vacated(self.interests) == before.vacated_sources,
                    interest_lists(self.interests).dom() == before.sources.dom(),
                    forall|s: usize| #[trigger] before.sources.dom().contains(s)
                        ==> interest_lists(self.interests)[s] == (if indexed.take(
                        i as int,
                    ).contains(DataSource(s)) {
                        without(before.sources[s], token)
                    } else {
                        before.sources[s]
                    }),
                    self.notify == old(self).notify,
                    self.reactor_keys.wf(),
                    self.reactor_keys.live() == old(self).reactor_keys.live().remove(idx),
                    self.reactor_keys.vacated() == seq![idx] + old(self).reactor_keys.vacated(),
                    self.reactor_keys.bound() == old(self).reactor_keys.bound(),
                    self.bodies@ == old(self).bodies@.update(idx as int, None),
                decreases indexed.len() - i,
            {
                let source: DataSource = self.reactor_sources[idx][i];
                let ghost lists = interest_lists(self.interests);
                if let Some(subscribers) = interests_get_mut(&mut self.interests, source.0) {
                    retain_tokens(subscribers, token);
                }
                proof {
                    let done = indexed.take(i as int);
                    let now = indexed.take(i + 1);
                    assert(now =~= done.push(source));
                    assert forall|s: DataSource| #[trigger] now.contains(s)
                        <==> done.contains(s) || s == source by {
                        if done.contains(s) {
                            let j = choose|j: int| 0 <= j < done.len() && done[j] == s;
                            assert(now[j] == s);
                        }
                        assert(now[i as int] == source);
                    }
                    let lists_now = interest_lists(self.interests);
                    assert(lists_now.dom() =~= before.sources.dom());
                    assert forall|s: usize| #[trigger] before.sources.dom().contains(s)
                        implies lists_now[s] == (if now.contains(DataSource(s)) {
                        without(before.sources[s], token)
                    } else {
                        before.sources[s]
                    }) by {
                        if s == source.0 {
                            assert(DataSource(s) == source);
                            lemma_without(before.sources[s], token);
                            lemma_without(without(before.sources[s], token), token);
                        } else {
                            assert(DataSource(s) != source);
                            assert(lists_now[s] == lists[s]);
                        }
                    }
                }
                i = i + 1;
            }
            self.reactor_sources[idx].clear();
            proof {
                self.lemma_doms();
                assert(indexed.take(i as int) =~= indexed);
                let after = before.remove_reactor(token);
                let now = self@;
                assert(now.sources.dom() =~= after.sources.dom());
                assert forall|s: usize| #[trigger] now.sources.dom().contains(s)
                    implies now.sources[s] == after.sources[s] by {
                    let list = before.sources[s];
                    lemma_without(list, token);
                    if !indexed.contains(DataSource(s)) {
                        assert(before.index[idx as int] == indexed);
                        assert(!list.contains(token)) by {
                            if list.contains(token) {
                                assert(before.sources[s].contains(token));
                            }
                        }
                    }
                }
                assert(now.sources =~= after.sources);
                assert(now.index =~= after.index);
                assert(now.reactors =~= after.reactors);
                assert(now =~= after);
                before.lemma_remove_reactor(token);
            }
        }
    }

    /// Reserves a slot for a reactor, to be filled by [`insert_reactor`](Self::insert_reactor).
    pub fn create_reactor(&mut self) -> (token: Token)
        requires
            old(self).wf(),
        ensures
            final(self).wf(),
            final(self)@.wf(),
            token.idx as nat == old(self)@.next_reactor(),
            !old(self)@.reactors.dom().contains(token.idx),
            final(self)@ == old(self)@.create(None),
    {
        self.occupy(None)
    }

    /// Fills a slot that was reserved and is still empty.
    pub fn insert_reactor<X, I>(
        &mut self,
        token: Token,
        reactor: X,
    ) -> (registration: ReactorRegistration<'_, B>) where B: FromReactor<X, I>
        requires
            old(self).wf(),
            old(self)@.reactors.dom().contains(token.idx),
            old(self)@.reactors[token.idx] is None,
        ensures
            registration.token == token,
            registration.notify.wf(),
            registration.notify@.wf(),
            registration.notify@ == old(self)@.fill(token.idx, Some(B::of(reactor))),
            *final(self) == *final(registration.notify),
    {
        self.put_reactor(token.idx, B::from_reactor(reactor));
        ReactorRegistration { token, notify: self }
    }

    /// Registers a reactor that is made of a function and of the context that `ctx_fn` gives for
    /// the reactor's token.
    pub fn register<R, C, Params, I, F: IntoReactor<R, C, Params>>(
        &mut self,
        ctx_fn: impl FnOnce(Token) -> C,
        step: F,
        registry: &Registry<R>,
    ) -> (registration: ReactorRegistration<'_, B>) where B: FromReactor<F::Reactor, I>
        requires
            old(self).wf(),
            forall|token: Token| token.idx as nat == old(self)@.next_reactor()
                ==> #[trigger] call_requires(ctx_fn, (token,)),
        ensures
            registration.token.idx as nat == old(self)@.next_reactor(),
            !old(self)@.reactors.dom().contains(registration.token.idx),
            registration.notify.wf(),
            registration.notify@.wf(),
            exists|ctx: C| #[trigger] call_ensures(ctx_fn, (registration.token,), ctx)
                && registration.notify@ == old(self)@.create(Some(B::of(step.reacting(ctx)))),
            *final(self) == *final(registration.notify),
    {
        proof {
            self.lemma_doms();
        }
        let key: usize = self.reactor_keys.next_key();
        let ctx = ctx_fn(Token { idx: key });
        let ghost made = ctx;
        let reactor = step.into_reactor(ctx, registry);
        let token = self.occupy(Some(B::from_reactor(reactor)));
        assert(call_ensures(ctx_fn, (token,), made));
        ReactorRegistration { token, notify: self }
    }

    /// Registers a reactor.
    pub fn register_built<X, I>(
        &mut self,
        reactor: X,
    ) -> (registration: ReactorRegistration<'_, B>) where B: FromReactor<X, I>
        requires
            old(self).wf(),
        ensures
            registration.token.idx as nat == old(self)@.next_reactor(),
            !old(self)@.reactors.dom().contains(registration.token.idx),
            registration.notify.wf(),
            registration.notify@.wf(),
            registration.notify@ == old(self)@.create(Some(B::of(reactor))),
            *final(self) == *final(registration.notify),
    {
        let token = self.occupy(Some(B::from_reactor(reactor)));
        ReactorRegistration { token, notify: self }
    }

    /// Whether a reactor is woken.
    pub fn has_notified(&self) -> (any: bool)
        ensures
            any == (self@.woken.len() > 0),
    {
        self.notify.has_notified()
    }

    /// How many reactors are woken.
    pub fn notified_count(&self) -> (count: usize)
        ensures
            count == self@.woken.len(),
    {
        self.notify.notified_count()
    }

    /// How many data sources there are.
    pub fn source_count(&self) -> (count: usize)
        ensures
            count == self@.sources.dom().len(),
    {
        interests_len(&self.interests)
    }

    /// How many slots for reactors are in use.
    pub fn reactor_count(&self) -> (count: usize)
        ensures
            count == self@.reactors.dom().len(),
    {
        proof {
            self.lemma_doms();
        }
        self.reactor_keys.count()
    }
}

/// A reactor that was just registered, for its subscriptions.
pub struct ReactorRegistration<'a, B> {
    pub token: Token,
    pub notify: &'a mut ReactorNotify<B>,
}

impl<'a, B> ReactorRegistration<'a, B> {
    /// Subscribes the reactor to a source.
    pub fn subscribe(self, source: DataSource) -> (registration: ReactorRegistration<'a, B>)
        requires
            self.notify.wf(),
            self.notify@.sources.dom().contains(source.0)
                ==> self.token.idx < self.notify@.index.len(),
        ensures
            registration.token == self.token,
            registration.notify.wf(),
            registration.notify@.wf(),
            registration.notify@ == old(self.notify)@.subscribe(self.token, source),
            *final(registration.notify) == *final(self.notify),
    {
        self.notify.subscribe(self.token, source);
        self
    }

    /// The reactor's token.
    pub fn token(&self) -> (token: Token)
        ensures
            token == self.token,
    {
        self.token
    }
}

/// A unit of work on the world.
pub trait Reactor<R> {
    /// When the reactor may run.
    spec fn run_pre(&self, world: World<R>) -> bool;

    /// What a run may lead to.
    spec fn run_post(&self, world: World<R>, after: &Self, world_after: World<R>) -> bool;

    fn run(&mut self, world: &mut World<R>)
        requires
            old(self).run_pre(*old(world)),
        ensures
            old(self).run_post(*old(world), &*final(self), *final(world)),
    ;

    /// A name for diagnostics.
    fn name(&self) -> (name: &'static str)
        default_ensures
            name@ == "<unnamed>"@,
    {
        "<unnamed>"
    }
}

/// A type of reactor that can stand for an `X`. `I` tells in which way, and is inferred wherever
/// there is only one.
pub trait FromReactor<X, I>: Sized {
    /// What stands for the reactor.
    spec fn of(reactor: X) -> Self;

    fn from_reactor(reactor: X) -> (r: Self)
        ensures
            r == Self::of(reactor),
    ;
}

/// A reactor stands for itself.
pub struct Itself {}

/// A reactor stands in a [`OneOf`] as the first of its two types.
pub struct InFirst {}

/// A reactor stands, in the way `I`, in the second type of a [`OneOf`].
pub struct InSecond<I> {
    pub index: PhantomData<I>,
}

impl<X> FromReactor<X, Itself> for X {
    open spec fn of(reactor: X) -> Self {
        reactor
    }

    fn from_reactor(reactor: X) -> (r: Self) {
        reactor
    }
}

/// A reactor of one of two types. With a `OneOf` as the second type in its turn, reactors of any
/// number of types fit in one [`ReactorNotify`].
pub enum OneOf<A, B> {
    First(A),
    Second(B),
}

impl<R, A: Reactor<R>, B: Reactor<R>> Reactor<R> for OneOf<A, B> {
    open spec fn run_pre(&self, world: World<R>) -> bool {
        match *self {
            OneOf::First(a) => a.run_pre(world),
            OneOf::Second(b) => b.run_pre(world),
        }
    }

    open spec fn run_post(&self, world: World<R>, after: &Self, world_after: World<R>) -> bool {
        match (*self, *after) {
            (OneOf::First(a), OneOf::First(a_after)) => a.run_post(world, &a_after, world_after),
            (OneOf::Second(b), OneOf::Second(b_after)) => b.run_post(world, &b_after, world_after),
            _ => false,
        }
    }

    fn run(&mut self, world: &mut World<R>) {
        match self {
            OneOf::First(a) => a.run(world),
            OneOf::Second(b) => b.run(world),
        }
    }

    fn name(&self) -> (name: &'static str)
        ensures
            match *self {
                OneOf::First(a) => call_ensures(A::name, (&a,), name),
                OneOf::Second(b) => call_ensures(B::name, (&b,), name),
            },
    {
        match self {
            OneOf::First(a) => a.name(),
            OneOf::Second(b) => b.name(),
        }
    }
}

impl<A, B> FromReactor<A, InFirst> for OneOf<A, B> {
    open spec fn of(reactor: A) -> Self {
        OneOf::First(reactor)
    }

    fn from_reactor(reactor: A) -> (r: Self) {
        OneOf::First(reactor)
    }
}

impl<X, I, A, B: FromReactor<X, I>> FromReactor<X, InSecond<I>> for OneOf<A, B> {
    open spec fn of(reactor: X) -> Self {
        OneOf::Second(B::of(reactor))
    }

    fn from_reactor(reactor: X) -> (r: Self) {
        OneOf::Second(B::from_reactor(reactor))
    }
}

/// A reactor that is made of a function and of the context that the function is handed.
pub struct ReactorFn<C, S> {
    pub ctx: C,
    pub step: S,
    pub name: &'static str,
}

impl<R, C, S: CtxProducerCall<R, C, Out = ()>> Reactor<R> for ReactorFn<C, S> {
    open spec fn run_pre(&self, world: World<R>) -> bool {
        self.step.call_pre(self.ctx, world)
    }

    open spec fn run_post(&self, world: World<R>, after: &Self, world_after: World<R>) -> bool {
        &&& self.step.call_post(self.ctx, world, after.step, after.ctx, world_after, ())
        &&& after.name == self.name
    }

    fn run(&mut self, world: &mut World<R>) {
        self.step.call(&mut self.ctx, world)
    }

    fn name(&self) -> (name: &'static str)
        ensures
            name == self.name,
    {
        self.name
    }
}

/// A reactor that is made of a pipeline or a graph and of the context that its steps are handed.
pub struct PipelineReactor<C, S> {
    pub ctx: C,
    pub body: S,
    pub name: &'static str,
}

impl<C, S> PipelineReactor<C, S> {
    pub fn new(ctx: C, body: S) -> (reactor: Self)
        ensures
            reactor.ctx == ctx,
            reactor.body == body,
            reactor.name@ == "<unnamed>"@,
    {
        PipelineReactor { ctx, body, name: "<unnamed>" }
    }
}

impl<R, C, S: CtxStepCall<R, C, (), Out = ()>> Reactor<R> for PipelineReactor<C, S> {
    open spec fn run_pre(&self, world: World<R>) -> bool {
        self.body.call_pre(self.ctx, world, ())
    }

    open spec fn run_post(&self, world: World<R>, after: &Self, world_after: World<R>) -> bool {
        &&& self.body.call_post(self.ctx, world, (), after.body, after.ctx, world_after, ())
        &&& after.name == self.name
    }

    fn run(&mut self, world: &mut World<R>) {
        self.body.call(&mut self.ctx, world, ())
    }

    fn name(&self) -> (name: &'static str)
        ensures
            name == self.name,
    {
        self.name
    }
}

/// Turns a function into a [`Reactor`]. `Params` tells the shapes of function apart.
pub trait IntoReactor<R, C, Params>: Sized {
    type Reactor: Reactor<R>;

    /// The reactor that the function and the context make up.
    spec fn reacting(self, ctx: C) -> Self::Reactor;

    fn into_reactor(self, ctx: C, registry: &Registry<R>) -> (reactor: Self::Reactor)
        ensures
            reactor == self.reacting(ctx),
    ;
}

impl<R, C, Params, F: IntoCtxProducer<R, C, (), Params>> IntoReactor<R, C, Params> for F {
    type Reactor = ReactorFn<C, F::Step>;

    open spec fn reacting(self, ctx: C) -> ReactorFn<C, F::Step> {
        ReactorFn { ctx, step: self.resolved(), name: "<unnamed>" }
    }

    fn into_reactor(self, ctx: C, registry: &Registry<R>) -> (reactor: ReactorFn<C, F::Step>) {
        ReactorFn { ctx, step: self.into_ctx_producer(registry), name: "<unnamed>" }
    }
}

/// Reactors to be removed once those that are woken have run. Lives in the world as a resource.
pub struct DeferredRemovals {
    tokens: Vec<Token>,
}

impl View for DeferredRemovals {
    type V = Seq<Token>;

    closed spec fn view(&self) -> Seq<Token> {
        self.tokens@
    }
}

impl DeferredRemovals {
    /// Asks for a reactor to be removed.
    pub fn deregister(&mut self, token: Token)
        ensures
            final(self)@ == old(self)@.push(token),
    {
        self.tokens.push(token)
    }

    /// Takes the tokens out.
    pub(crate) fn take(&mut self) -> (tokens: Vec<Token>)
        ensures
            tokens@ == old(self)@,
            final(self)@ == Seq::<Token>::empty(),
    {
        let mut tokens: Vec<Token> = Vec::new();
        std::mem::swap(&mut self.tokens, &mut tokens);
        tokens
    }

    /// Puts a vector back whose tokens were worked off.
    pub(crate) fn put(&mut self, tokens: Vec<Token>)
        ensures
            final(self)@ == tokens@,
    {
        self.tokens = tokens;
    }

    /// Whether no removal is pending.
    pub fn is_empty(&self) -> (empty: bool)
        ensures
            empty == (self@.len() == 0),
    {
        self.tokens.len() == 0
    }
}

impl Default for DeferredRemovals {
    fn default() -> (removals: Self)
        ensures
            removals@ == Seq::<Token>::empty(),
    {
        DeferredRemovals { tokens: Vec::new() }
    }
}

/// The world's reactors.
pub open spec fn notify_of<R, B, I>(
    world: World<R>,
) -> ReactorNotify<B> where R: Resource<ReactorNotify<B>, I> {
    world.held::<ReactorNotify<B>, I>()
}

/// The reactors that the world is to be rid of.
pub open spec fn removals_of<R, J>(
    world: World<R>,
) -> DeferredRemovals where R: Resource<DeferredRemovals, J> {
    world.held::<DeferredRemovals, J>()
}

/// When the reactor in the slot `idx` may have its turn: it may run, and whatever it does, it
/// leaves the tables in order and its slot in use.
pub open spec fn turn_pre<R, B: Reactor<R>, I>(
    world: World<R>,
    idx: usize,
) -> bool where R: Resource<ReactorNotify<B>, I> {
    let notify = notify_of::<R, B, I>(world);
    &&& notify.wf()
    &&& notify@.body(idx) is Some ==> forall|taken: ReactorNotify<B>|
        #[trigger] taken.wf() && taken@ == notify@.taken(idx) ==> {
            let world_run = world.holding::<ReactorNotify<B>, I>(taken);
            &&& notify@.body(idx)->0.run_pre(world_run)
            &&& forall|body: B, world_mid: World<R>|
                #[trigger] notify@.body(idx)->0.run_post(world_run, &body, world_mid) ==> {
                    &&& notify_of::<R, B, I>(world_mid).wf()
                    &&& notify_of::<R, B, I>(world_mid)@.reactors.dom().contains(idx)
                }
        }
}

/// One reactor's turn: the reactor is taken out of its slot, runs, and is put back. Nothing
/// happens where the slot is empty or not in use.
pub open spec fn turn_post<R, B: Reactor<R>, I>(
    world: World<R>,
    idx: usize,
    world_after: World<R>,
) -> bool where R: Resource<ReactorNotify<B>, I> {
    let notify = notify_of::<R, B, I>(world);
    if notify@.body(idx) is Some {
        exists|taken: ReactorNotify<B>, body: B, world_mid: World<R>, put: ReactorNotify<B>|
            #[trigger] taken.wf() && taken@ == notify@.taken(idx)
                && #[trigger] notify@.body(idx)->0.run_post(
                    world.holding::<ReactorNotify<B>, I>(taken),
                    &body,
                    world_mid,
                )
                && #[trigger] put.wf()
                && put@ == notify_of::<R, B, I>(world_mid)@.fill(idx, Some(body))
                && world_after == world_mid.holding::<ReactorNotify<B>, I>(put)
    } else {
        world_after == world
    }
}

/// When the reactors of `tokens` may have their turns, one after the other.
pub open spec fn frame_pre<R, B: Reactor<R>, I>(
    world: World<R>,
    tokens: Seq<Token>,
) -> bool where R: Resource<ReactorNotify<B>, I>
    decreases tokens.len(),
{
    tokens.len() > 0 ==> {
        &&& turn_pre::<R, B, I>(world, tokens[0].idx)
        &&& forall|world_mid: World<R>|
            #[trigger] turn_post::<R, B, I>(world, tokens[0].idx, world_mid)
                ==> frame_pre::<R, B, I>(world_mid, tokens.drop_first())
    }
}

/// The reactors of `tokens` have their turns, one after the other. `ran` tells whether one of the
/// turns found a reactor in its slot, so that a reactor ran.
pub open spec fn frame_post<R, B: Reactor<R>, I>(
    world: World<R>,
    tokens: Seq<Token>,
    world_after: World<R>,
    ran: bool,
) -> bool where R: Resource<ReactorNotify<B>, I>
    decreases tokens.len(),
{
    if tokens.len() == 0 {
        world_after == world && !ran
    } else {
        let rest = tokens.drop_first();
        exists|world_mid: World<R>|
            #[trigger] turn_post::<R, B, I>(world, tokens[0].idx, world_mid)
                && if notify_of::<R, B, I>(world)@.body(tokens[0].idx) is Some {
                    ran && (frame_post::<R, B, I>(world_mid, rest, world_after, true)
                        || frame_post::<R, B, I>(world_mid, rest, world_after, false))
                } else {
                    frame_post::<R, B, I>(world_mid, rest, world_after, ran)
                }
    }
}

/// The first turn of a frame, and whether a reactor runs in the turns behind it.
proof fn lemma_frame_first<R, B: Reactor<R>, I>(
    world: World<R>,
    tokens: Seq<Token>,
    world_after: World<R>,
    ran: bool,
) -> (first: (World<R>, bool)) where R: Resource<ReactorNotify<B>, I>
    requires
        frame_post::<R, B, I>(world, tokens, world_after, ran),
        tokens.len() > 0,
    ensures
        turn_post::<R, B, I>(world, tokens[0].idx, first.0),
        frame_post::<R, B, I>(first.0, tokens.drop_first(), world_after, first.1),
        ran == (notify_of::<R, B, I>(world)@.body(tokens[0].idx) is Some || first.1),
{
    let rest = tokens.drop_first();
    let found = notify_of::<R, B, I>(world)@.body(tokens[0].idx) is Some;
    let w = choose|w: World<R>|
        #[trigger] turn_post::<R, B, I>(world, tokens[0].idx, w)
            && if found {
                ran && (frame_post::<R, B, I>(w, rest, world_after, true)
                    || frame_post::<R, B, I>(w, rest, world_after, false))
            } else {
                frame_post::<R, B, I>(w, rest, world_after, ran)
            };
    if found {
        (w, frame_post::<R, B, I>(w, rest, world_after, true))
    } else {
        (w, ran)
    }
}

proof fn lemma_frame_push<R, B: Reactor<R>, I>(
    world: World<R>,
    tokens: Seq<Token>,
    world_mid: World<R>,
    ran: bool,
    token: Token,
    world_after: World<R>,
) where R: Resource<ReactorNotify<B>, I>
    requires
        frame_post::<R, B, I>(world, tokens, world_mid, ran),
        turn_post::<R, B, I>(world_mid, token.idx, world_after),
    ensures
        frame_post::<R, B, I>(
            world,
            tokens.push(token),
            world_after,
            ran || notify_of::<R, B, I>(world_mid)@.body(token.idx) is Some,
        ),
    decreases tokens.len(),
{
    let all = tokens.push(token);
    let found = notify_of::<R, B, I>(world_mid)@.body(token.idx) is Some;
    if tokens.len() == 0 {
        assert(all.drop_first() =~= Seq::<Token>::empty());
        assert(frame_post::<R, B, I>(world_after, all.drop_first(), world_after, false));
    } else {
        let (w, rest_ran) = lemma_frame_first::<R, B, I>(world, tokens, world_mid, ran);
        lemma_frame_push::<R, B, I>(
            w,
            tokens.drop_first(),
            world_mid,
            rest_ran,
            token,
            world_after,
        );
        assert(all.drop_first() =~= tokens.drop_first().push(token));
        assert(frame_post::<R, B, I>(w, all.drop_first(), world_after, rest_ran || found));
    }
}

/// When the world's woken reactors may be dispatched.
pub open spec fn dispatch_pre<R, B: Reactor<R>, I, J>(
    world: World<R>,
) -> bool where R: Apart<ReactorNotify<B>, I, DeferredRemovals, J> {
    let notify = notify_of::<R, B, I>(world);
    &&& notify.wf()
    &&& forall|polled: ReactorNotify<B>|
        #[trigger] polled.wf() && polled@ == notify@.polled() ==> {
            let world_run = world.holding::<ReactorNotify<B>, I>(polled);
            &&& frame_pre::<R, B, I>(world_run, notify@.woken)
            &&& forall|world_ran: World<R>, ran: bool|
                #[trigger] frame_post::<R, B, I>(world_run, notify@.woken, world_ran, ran)
                    ==> notify_of::<R, B, I>(world_ran).wf()
        }
}

/// One dispatch: the woken reactors have their turns, in the order in which they were woken, and
/// then the reactors whose removal is pending are removed. `ran` tells whether a reactor ran.
pub open spec fn dispatch_post<R, B: Reactor<R>, I, J>(
    world: World<R>,
    world_after: World<R>,
    ran: bool,
) -> bool where
    R: Apart<ReactorNotify<B>, I, DeferredRemovals, J>,
{
    let notify = notify_of::<R, B, I>(world);
    exists|
        polled: ReactorNotify<B>,
        world_ran: World<R>,
        left: ReactorNotify<B>,
        removals: DeferredRemovals,
    |
        #[trigger] polled.wf() && polled@ == notify@.polled()
            && #[trigger] frame_post::<R, B, I>(
                world.holding::<ReactorNotify<B>, I>(polled),
                notify@.woken,
                world_ran,
                ran,
            )
            && #[trigger] left.wf()
            && left@ == notify_of::<R, B, I>(world_ran)@.remove_all(removals_of::<R, J>(world_ran)@)
            && #[trigger] removals@ == Seq::<Token>::empty()
            && world_after == world_ran.holding::<ReactorNotify<B>, I>(left).holding::<DeferredRemovals, J>(removals)
}

/// A dispatch that finds no reactor woken and no removal pending lets no reactor run, and
/// leaves reactors, sources and subscriptions as they are.
pub proof fn lemma_dispatch_idle<R, B: Reactor<R>, I, J>(
    world: World<R>,
    world_after: World<R>,
    ran: bool,
) where
    R: Apart<ReactorNotify<B>, I, DeferredRemovals, J>,
    requires
        dispatch_post::<R, B, I, J>(world, world_after, ran),
        notify_of::<R, B, I>(world)@.woken == Seq::<Token>::empty(),
        removals_of::<R, J>(world)@ == Seq::<Token>::empty(),
    ensures
        !ran,
        notify_of::<R, B, I>(world_after)@ == notify_of::<R, B, I>(world)@,
        removals_of::<R, J>(world_after)@ == Seq::<Token>::empty(),
{
    let notify = notify_of::<R, B, I>(world);
    let (polled, world_ran, left, removals) = choose|
        polled: ReactorNotify<B>,
        world_ran: World<R>,
        left: ReactorNotify<B>,
        removals: DeferredRemovals,
    |
        #[trigger] polled.wf() && polled@ == notify@.polled()
            && #[trigger] frame_post::<R, B, I>(
                world.holding::<ReactorNotify<B>, I>(polled),
                notify@.woken,
                world_ran,
                ran,
            )
            && #[trigger] left.wf()
            && left@ == notify_of::<R, B, I>(world_ran)@.remove_all(removals_of::<R, J>(world_ran)@)
            && #[trigger] removals@ == Seq::<Token>::empty()
            && world_after == world_ran.holding::<ReactorNotify<B>, I>(left).holding::<DeferredRemovals, J>(removals);
    world.resources.lemma_apart(polled, removals);
    <R as Resource<ReactorNotify<B>, I>>::lemma_resource(&world.resources, polled, polled);
    lemma_dispatch_end::<R, B, I, J>(world_ran, left, removals);
    assert(notify@.polled() =~= notify@);
}

proof fn lemma_dispatch_end<R, B, I, J>(
    world: World<R>,
    left: ReactorNotify<B>,
    removals: DeferredRemovals,
) where
    R: Apart<ReactorNotify<B>, I, DeferredRemovals, J>,
    ensures
        notify_of::<R, B, I>(world.holding::<ReactorNotify<B>, I>(left).holding::<DeferredRemovals, J>(removals))
            == left,
        removals_of::<R, J>(world.holding::<ReactorNotify<B>, I>(left).holding::<DeferredRemovals, J>(removals))
            == removals,
{
    let mid = world.holding::<ReactorNotify<B>, I>(left);
    mid.resources.lemma_apart(left, removals);
    <R as Resource<ReactorNotify<B>, I>>::lemma_resource(&world.resources, left, left);
    <R as Resource<DeferredRemovals, J>>::lemma_resource(&mid.resources, removals, removals);
}

/// Removals take effect after the woken reactors have run: then no removal is pending, and a
/// reactor whose removal was pending has neither its slot nor a subscription.
pub proof fn lemma_dispatch_removes<R, B: Reactor<R>, I, J>(
    world: World<R>,
    world_after: World<R>,
    ran: bool,
) where
    R: Apart<ReactorNotify<B>, I, DeferredRemovals, J>,
    requires
        dispatch_pre::<R, B, I, J>(world),
        dispatch_post::<R, B, I, J>(world, world_after, ran),
    ensures
        removals_of::<R, J>(world_after)@ == Seq::<Token>::empty(),
        exists|polled: ReactorNotify<B>, world_ran: World<R>|
            polled@ == notify_of::<R, B, I>(world)@.polled()
                && #[trigger] frame_post::<R, B, I>(
                world.holding::<ReactorNotify<B>, I>(polled),
                notify_of::<R, B, I>(world)@.woken,
                world_ran,
                ran,
            ) && forall|t: Token, s: DataSource|
                removals_of::<R, J>(world_ran)@.contains(t)
                    ==> !notify_of::<R, B, I>(world_after)@.reactors.dom().contains(t.idx)
                    && (notify_of::<R, B, I>(world_ran)@.reactors.dom().contains(t.idx)
                        ==> !#[trigger] notify_of::<R, B, I>(
                    world_after,
                )@.subscribed(t, s)),
{
    let notify = notify_of::<R, B, I>(world);
    let (polled, world_ran, left, removals) = choose|
        polled: ReactorNotify<B>,
        world_ran: World<R>,
        left: ReactorNotify<B>,
        removals: DeferredRemovals,
    |
        #[trigger] polled.wf() && polled@ == notify@.polled()
            && #[trigger] frame_post::<R, B, I>(
                world.holding::<ReactorNotify<B>, I>(polled),
                notify@.woken,
                world_ran,
                ran,
            )
            && #[trigger] left.wf()
            && left@ == notify_of::<R, B, I>(world_ran)@.remove_all(removals_of::<R, J>(world_ran)@)
            && #[trigger] removals@ == Seq::<Token>::empty()
            && world_after == world_ran.holding::<ReactorNotify<B>, I>(left).holding::<DeferredRemovals, J>(removals);
    lemma_dispatch_end::<R, B, I, J>(world_ran, left, removals);
    assert(notify_of::<R, B, I>(world_ran).wf());
    notify_of::<R, B, I>(world_ran)@.lemma_remove_all(removals_of::<R, J>(world_ran)@);
    assert(frame_post::<R, B, I>(
        world.holding::<ReactorNotify<B>, I>(polled),
        notify@.woken,
        world_ran,
        ran,
    ));
}

/// Every reactor of `tokens` has its turn, whatever those before it did.
pub proof fn lemma_frame_each<R, B: Reactor<R>, I>(
    world: World<R>,
    tokens: Seq<Token>,
    world_after: World<R>,
    ran: bool,
    k: int,
) where R: Resource<ReactorNotify<B>, I>
    requires
        frame_post::<R, B, I>(world, tokens, world_after, ran),
        0 <= k < tokens.len(),
    ensures
        exists|world_mid: World<R>, ran_before: bool, world_next: World<R>, ran_after: bool|
            #[trigger] frame_post::<R, B, I>(world, tokens.take(k), world_mid, ran_before)
                && turn_post::<R, B, I>(world_mid, tokens[k].idx, world_next)
                && #[trigger] frame_post::<R, B, I>(
                    world_next,
                    tokens.skip(k + 1),
                    world_after,
                    ran_after,
                )
                && ran == (ran_before
                    || notify_of::<R, B, I>(world_mid)@.body(tokens[k].idx) is Some
                    || ran_after),
    decreases k,
{
    let (w, rest_ran) = lemma_frame_first::<R, B, I>(world, tokens, world_after, ran);
    let rest = tokens.drop_first();
    if k == 0 {
        assert(tokens.take(0) =~= Seq::<Token>::empty());
        assert(tokens.skip(1) =~= rest);
        assert(frame_post::<R, B, I>(world, tokens.take(k), world, false));
        assert(frame_post::<R, B, I>(w, tokens.skip(k + 1), world_after, rest_ran));
    } else {
        lemma_frame_each::<R, B, I>(w, rest, world_after, rest_ran, k - 1);
        let (world_mid, ran_before, world_next, ran_after) = choose|
            world_mid: World<R>,
            ran_before: bool,
            world_next: World<R>,
            ran_after: bool,
        |
            #[trigger] frame_post::<R, B, I>(w, rest.take(k - 1), world_mid, ran_before)
                && turn_post::<R, B, I>(world_mid, rest[k - 1].idx, world_next)
                && #[trigger] frame_post::<R, B, I>(
                    world_next,
                    rest.skip(k - 1 + 1),
                    world_after,
                    ran_after,
                )
                && rest_ran == (ran_before
                    || notify_of::<R, B, I>(world_mid)@.body(rest[k - 1].idx) is Some
                    || ran_after);
        let found = notify_of::<R, B, I>(world)@.body(tokens[0].idx) is Some;
        assert(rest[k - 1] == tokens[k]);
        assert(rest.skip(k - 1 + 1) =~= tokens.skip(k + 1));
        assert(tokens.take(k).drop_first() =~= rest.take(k - 1));
        assert(frame_post::<R, B, I>(w, tokens.take(k).drop_first(), world_mid, ran_before));
        assert(frame_post::<R, B, I>(world, tokens.take(k), world_mid, found || ran_before));
        assert(frame_post::<R, B, I>(world_next, tokens.skip(k + 1), world_after, ran_after));
    }
}

/// Turns that find no reactor change nothing, so that a reactor runs exactly where one of
/// `tokens` has a reactor to begin with.
pub proof fn lemma_frame_ran<R, B: Reactor<R>, I>(
    world: World<R>,
    tokens: Seq<Token>,
    world_after: World<R>,
    ran: bool,
) where R: Resource<ReactorNotify<B>, I>
    requires
        frame_post::<R, B, I>(world, tokens, world_after, ran),
    ensures
        ran <==> exists|k: int|
            0 <= k < tokens.len()
                && notify_of::<R, B, I>(world)@.body((#[trigger] tokens[k]).idx) is Some,
        !ran ==> world_after == world,
    decreases tokens.len(),
{
    if tokens.len() > 0 {
        let (w, rest_ran) = lemma_frame_first::<R, B, I>(world, tokens, world_after, ran);
        let rest = tokens.drop_first();
        let notify = notify_of::<R, B, I>(world)@;
        lemma_frame_ran::<R, B, I>(w, rest, world_after, rest_ran);
        if notify.body(tokens[0].idx) is None {
            if rest_ran {
                let k = choose|k: int|
                    0 <= k < rest.len() && notify.body((#[trigger] rest[k]).idx) is Some;
                assert(tokens[k + 1] == rest[k]);
            } else {
                assert forall|k: int| 0 <= k < tokens.len()
                    implies notify.body((#[trigger] tokens[k]).idx) is None by {
                    if k > 0 {
                        assert(rest[k - 1] == tokens[k]);
                    }
                }
            }
        }
    }
}

/// A dispatch returns `true` exactly where a woken token has a reactor. So it returns `false`
/// where nothing is woken, and where the reactors woken were removed or their slots never filled.
pub proof fn lemma_dispatch_ran<R, B: Reactor<R>, I, J>(
    world: World<R>,
    world_after: World<R>,
    ran: bool,
) where
    R: Apart<ReactorNotify<B>, I, DeferredRemovals, J>,
    requires
        dispatch_post::<R, B, I, J>(world, world_after, ran),
    ensures
        ran <==> exists|k: int|
            0 <= k < notify_of::<R, B, I>(world)@.woken.len()
                && notify_of::<R, B, I>(world)@.body(
                    (#[trigger] notify_of::<R, B, I>(world)@.woken[k]).idx,
                ) is Some,
{
    let notify = notify_of::<R, B, I>(world);
    let (polled, world_ran) = choose|polled: ReactorNotify<B>, world_ran: World<R>|
        #[trigger] polled.wf() && polled@ == notify@.polled()
            && #[trigger] frame_post::<R, B, I>(
                world.holding::<ReactorNotify<B>, I>(polled),
                notify@.woken,
                world_ran,
                ran,
            );
    let world_run = world.holding::<ReactorNotify<B>, I>(polled);
    <R as Resource<ReactorNotify<B>, I>>::lemma_resource(&world.resources, polled, polled);
    lemma_frame_ran::<R, B, I>(world_run, notify@.woken, world_ran, ran);
    let woken = notify@.woken;
    assert forall|k: int| 0 <= k < woken.len()
        implies notify_of::<R, B, I>(world_run)@.body((#[trigger] woken[k]).idx)
        == notify@.body(woken[k].idx) by {}
}

/// A reactor is woken at most once per dispatch, however many of its sources were marked.
pub proof fn lemma_woken_once<R, B: Reactor<R>, I, J>(
    world: World<R>,
) where R: Apart<ReactorNotify<B>, I, DeferredRemovals, J>
    requires
        dispatch_pre::<R, B, I, J>(world),
    ensures
        notify_of::<R, B, I>(world)@.woken.no_duplicates(),
{
}

/// A turn takes the reactor out of its slot, lets it run once, and puts back what it has become.
/// The slot holds nothing while the reactor runs. Apart from that slot, the turn leaves the world
/// as the reactor left it: the other slots, the subscribers of every source, and what is woken.
pub proof fn lemma_turn<R, B: Reactor<R>, I>(
    world: World<R>,
    idx: usize,
    world_after: World<R>,
) where R: Resource<ReactorNotify<B>, I>
    requires
        turn_post::<R, B, I>(world, idx, world_after),
    ensures
        notify_of::<R, B, I>(world)@.body(idx) is None ==> world_after == world,
        notify_of::<R, B, I>(world)@.body(idx) is Some ==> exists|
            taken: ReactorNotify<B>,
            body: B,
            world_mid: World<R>,
            put: ReactorNotify<B>,
        |
            {
                let before = notify_of::<R, B, I>(world)@;
                let left = notify_of::<R, B, I>(world_mid)@;
                &&& #[trigger] notify_of::<R, B, I>(world)@.body(idx)->0.run_post(
                    world.holding::<ReactorNotify<B>, I>(taken),
                    &body,
                    world_mid,
                )
                &&& taken@.body(idx) is None
                &&& forall|k: usize| k != idx ==> #[trigger] taken@.body(k) == before.body(k)
                &&& taken@.reactors.dom() == before.reactors.dom()
                &&& taken@.sources == before.sources
                &&& taken@.woken == before.woken
                &&& world_after == #[trigger] world_mid.holding::<ReactorNotify<B>, I>(put)
                &&& put@.body(idx) == Some(body)
                &&& forall|k: usize| k != idx ==> #[trigger] put@.body(k) == left.body(k)
                &&& put@.sources == left.sources
                &&& put@.woken == left.woken
            },
{
    let notify = notify_of::<R, B, I>(world);
    if notify@.body(idx) is Some {
        let (taken, body, world_mid, put) = choose|
            taken: ReactorNotify<B>,
            body: B,
            world_mid: World<R>,
            put: ReactorNotify<B>,
        |
            #[trigger] taken.wf() && taken@ == notify@.taken(idx)
                && #[trigger] notify@.body(idx)->0.run_post(
                    world.holding::<ReactorNotify<B>, I>(taken),
                    &body,
                    world_mid,
                )
                && #[trigger] put.wf()
                && put@ == notify_of::<R, B, I>(world_mid)@.fill(idx, Some(body))
                && world_after == world_mid.holding::<ReactorNotify<B>, I>(put);
        let left = notify_of::<R, B, I>(world_mid)@;
        notify@.lemma_fill(idx, Some(body));
        left.lemma_fill(idx, Some(body));
        assert forall|k: usize| k != idx implies #[trigger] taken@.body(k) == notify@.body(k) by {
            assert(notify@.taken(idx).body(k) == notify@.body(k));
        }
        assert forall|k: usize| k != idx implies #[trigger] put@.body(k) == left.body(k) by {
            assert(left.fill(idx, Some(body)).body(k) == left.body(k));
        }
        assert(world_after == world_mid.holding::<ReactorNotify<B>, I>(put));
    }
}

/// What the removals at the end of a dispatch leave as the last turn left it: what is woken, so
/// that the marks that reactors made while they ran wake at the next dispatch; and the slot, the
/// reactor and the subscriptions of every reactor whose removal is not pending.
pub proof fn lemma_dispatch_leaves<R, B: Reactor<R>, I, J>(
    world: World<R>,
    world_after: World<R>,
    ran: bool,
) where
    R: Apart<ReactorNotify<B>, I, DeferredRemovals, J>,
    requires
        dispatch_pre::<R, B, I, J>(world),
        dispatch_post::<R, B, I, J>(world, world_after, ran),
    ensures
        exists|polled: ReactorNotify<B>, world_ran: World<R>|
            {
                let before = notify_of::<R, B, I>(world)@;
                let left = notify_of::<R, B, I>(world_ran)@;
                let now = notify_of::<R, B, I>(world_after)@;
                let pending = removals_of::<R, J>(world_ran)@;
                &&& #[trigger] frame_post::<R, B, I>(
                    world.holding::<ReactorNotify<B>, I>(polled),
                    notify_of::<R, B, I>(world)@.woken,
                    world_ran,
                    ran,
                )
                &&& polled@.woken.len() == 0
                &&& polled@.reactors == before.reactors
                &&& polled@.sources == before.sources
                &&& now.woken == left.woken
                &&& now.sources.dom() == left.sources.dom()
                &&& forall|k: usize| #[trigger] now.reactors.dom().contains(k)
                        <==> left.reactors.dom().contains(k) && !pending.contains(Token { idx: k })
                &&& forall|k: usize| #[trigger] now.reactors.dom().contains(k)
                        ==> now.reactors[k] == left.reactors[k]
                &&& forall|s: usize, t: Token|
                    left.sources.dom().contains(s) && !pending.contains(t)
                        ==> (#[trigger] now.sources[s].contains(t) <==> left.sources[s].contains(t))
                &&& forall|s: usize, t: Token|
                    left.sources.dom().contains(s) && pending.contains(t)
                        && left.reactors.dom().contains(t.idx)
                        ==> !#[trigger] now.sources[s].contains(t)
            },
{
    let notify = notify_of::<R, B, I>(world);
    let (polled, world_ran, left, removals) = choose|
        polled: ReactorNotify<B>,
        world_ran: World<R>,
        left: ReactorNotify<B>,
        removals: DeferredRemovals,
    |
        #[trigger] polled.wf() && polled@ == notify@.polled()
            && #[trigger] frame_post::<R, B, I>(
                world.holding::<ReactorNotify<B>, I>(polled),
                notify@.woken,
                world_ran,
                ran,
            )
            && #[trigger] left.wf()
            && left@ == notify_of::<R, B, I>(world_ran)@.remove_all(removals_of::<R, J>(world_ran)@)
            && #[trigger] removals@ == Seq::<Token>::empty()
            && world_after == world_ran.holding::<ReactorNotify<B>, I>(left).holding::<DeferredRemovals, J>(removals);
    lemma_dispatch_end::<R, B, I, J>(world_ran, left, removals);
    notify@.lemma_polled();
    assert(notify_of::<R, B, I>(world_ran).wf());
    notify_of::<R, B, I>(world_ran)@.lemma_removed_all(removals_of::<R, J>(world_ran)@);
    assert(frame_post::<R, B, I>(
        world.holding::<ReactorNotify<B>, I>(polled),
        notify@.woken,
        world_ran,
        ran,
    ));
}

/// A dispatch leaves every other resource as the last turn left it.
pub proof fn lemma_dispatch_beside<R, B: Reactor<R>, I, J, V, K>(
    world: World<R>,
    world_after: World<R>,
    ran: bool,
) where
    R: Apart3<ReactorNotify<B>, I, DeferredRemovals, J, V, K>,
    requires
        dispatch_post::<R, B, I, J>(world, world_after, ran),
    ensures
        exists|polled: ReactorNotify<B>, world_ran: World<R>|
            #[trigger] frame_post::<R, B, I>(
                world.holding::<ReactorNotify<B>, I>(polled),
                notify_of::<R, B, I>(world)@.woken,
                world_ran,
                ran,
            ) && world_after.held::<V, K>() == world_ran.held::<V, K>()
                && world_after.sequence == world_ran.sequence,
{
    let notify = notify_of::<R, B, I>(world);
    let (polled, world_ran, left, removals) = choose|
        polled: ReactorNotify<B>,
        world_ran: World<R>,
        left: ReactorNotify<B>,
        removals: DeferredRemovals,
    |
        #[trigger] polled.wf() && polled@ == notify@.polled()
            && #[trigger] frame_post::<R, B, I>(
                world.holding::<ReactorNotify<B>, I>(polled),
                notify@.woken,
                world_ran,
                ran,
            )
            && #[trigger] left.wf()
            && left@ == notify_of::<R, B, I>(world_ran)@.remove_all(removals_of::<R, J>(world_ran)@)
            && #[trigger] removals@ == Seq::<Token>::empty()
            && world_after == world_ran.holding::<ReactorNotify<B>, I>(left).holding::<DeferredRemovals, J>(removals);
    let mid = world_ran.holding::<ReactorNotify<B>, I>(left);
    let other = world_ran.held::<V, K>();
    <R as Apart<ReactorNotify<B>, I, V, K>>::lemma_apart(&world_ran.resources, left, other);
    <R as Apart<DeferredRemovals, J, V, K>>::lemma_apart(&mid.resources, removals, other);
    assert(frame_post::<R, B, I>(
        world.holding::<ReactorNotify<B>, I>(polled),
        notify@.woken,
        world_ran,
        ran,
    ));
}

/// Reactors that may run in any world whose tables are in order, and that leave the tables in
/// order and the slots in use, may have their turns in any order and any number.
pub proof fn lemma_frame_ready<R, B: Reactor<R>, I>(
    world: World<R>,
    tokens: Seq<Token>,
) where R: Resource<ReactorNotify<B>, I>
    requires
        notify_of::<R, B, I>(world).wf(),
        forall|w: World<R>, b: B| notify_of::<R, B, I>(w).wf() ==> #[trigger] b.run_pre(w),
        forall|w: World<R>, b: B, b_after: B, w_after: World<R>|
            notify_of::<R, B, I>(w).wf() && #[trigger] b.run_post(w, &b_after, w_after)
                ==> notify_of::<R, B, I>(w_after).wf()
                && notify_of::<R, B, I>(w)@.reactors.dom().subset_of(
                notify_of::<R, B, I>(w_after)@.reactors.dom(),
            ),
    ensures
        frame_pre::<R, B, I>(world, tokens),
        forall|world_after: World<R>, ran: bool|
            #[trigger] frame_post::<R, B, I>(world, tokens, world_after, ran)
                ==> notify_of::<R, B, I>(world_after).wf(),
    decreases tokens.len(),
{
    if tokens.len() > 0 {
        let idx = tokens[0].idx;
        let notify = notify_of::<R, B, I>(world);
        assert forall|taken: ReactorNotify<B>|
            notify@.body(idx) is Some && #[trigger] taken.wf() && taken@ == notify@.taken(idx)
            implies {
            let world_run = world.holding::<ReactorNotify<B>, I>(taken);
            &&& notify@.body(idx)->0.run_pre(world_run)
            &&& forall|body: B, world_mid: World<R>|
                #[trigger] notify@.body(idx)->0.run_post(world_run, &body, world_mid) ==> {
                    &&& notify_of::<R, B, I>(world_mid).wf()
                    &&& notify_of::<R, B, I>(world_mid)@.reactors.dom().contains(idx)
                }
        } by {
            <R as Resource<ReactorNotify<B>, I>>::lemma_resource(&world.resources, taken, taken);
            notify@.lemma_fill(idx, None);
            assert(notify_of::<R, B, I>(world.holding::<ReactorNotify<B>, I>(taken)) == taken);
            assert(taken@.reactors.dom().contains(idx));
        }
        assert forall|world_mid: World<R>|
            #[trigger] turn_post::<R, B, I>(world, idx, world_mid) implies frame_pre::<R, B, I>(
            world_mid,
            tokens.drop_first(),
        ) && forall|world_after: World<R>, ran: bool|
            #[trigger] frame_post::<R, B, I>(world_mid, tokens.drop_first(), world_after, ran)
                ==> notify_of::<R, B, I>(world_after).wf() by {
            if notify@.body(idx) is Some {
                let (mid, put) = choose|mid: World<R>, put: ReactorNotify<B>|
                    put.wf() && world_mid == #[trigger] mid.holding::<ReactorNotify<B>, I>(put);
                <R as Resource<ReactorNotify<B>, I>>::lemma_resource(&mid.resources, put, put);
            }
            lemma_frame_ready::<R, B, I>(world_mid, tokens.drop_first());
        }
        assert forall|world_after: World<R>, ran: bool|
            #[trigger] frame_post::<R, B, I>(world, tokens, world_after, ran) implies notify_of::<
            R,
            B,
            I,
        >(world_after).wf() by {
            let (mid, rest_ran) = lemma_frame_first::<R, B, I>(world, tokens, world_after, ran);
            assert(turn_post::<R, B, I>(world, idx, mid));
        }
    }
}

/// The same reactors may be dispatched in any world whose tables are in order.
pub proof fn lemma_dispatch_ready<R, B: Reactor<R>, I, J>(
    world: World<R>,
) where R: Apart<ReactorNotify<B>, I, DeferredRemovals, J>
    requires
        notify_of::<R, B, I>(world).wf(),
        forall|w: World<R>, b: B| notify_of::<R, B, I>(w).wf() ==> #[trigger] b.run_pre(w),
        forall|w: World<R>, b: B, b_after: B, w_after: World<R>|
            notify_of::<R, B, I>(w).wf() && #[trigger] b.run_post(w, &b_after, w_after)
                ==> notify_of::<R, B, I>(w_after).wf()
                && notify_of::<R, B, I>(w)@.reactors.dom().subset_of(
                notify_of::<R, B, I>(w_after)@.reactors.dom(),
            ),
    ensures
        dispatch_pre::<R, B, I, J>(world),
{
    let notify = notify_of::<R, B, I>(world);
    assert forall|polled: ReactorNotify<B>|
        #[trigger] polled.wf() && polled@ == notify@.polled() implies {
        let world_run = world.holding::<ReactorNotify<B>, I>(polled);
        &&& frame_pre::<R, B, I>(world_run, notify@.woken)
        &&& forall|world_ran: World<R>, ran: bool|
            #[trigger] frame_post::<R, B, I>(world_run, notify@.woken, world_ran, ran)
                ==> notify_of::<R, B, I>(world_ran).wf()
    } by {
        <R as Resource<ReactorNotify<B>, I>>::lemma_resource(&world.resources, polled, polled);
        lemma_frame_ready::<R, B, I>(world.holding::<ReactorNotify<B>, I>(polled), notify@.woken);
    }
}

/// A reactor that is made of a function runs where the function may be called on its context, and
/// a run calls the function once. It keeps its name.
pub proof fn lemma_reactor_fn<R, C, S: CtxProducerCall<R, C, Out = ()>>(
    reactor: ReactorFn<C, S>,
    world: World<R>,
    after: ReactorFn<C, S>,
    world_after: World<R>,
)
    ensures
        reactor.run_pre(world) <==> reactor.step.call_pre(reactor.ctx, world),
        reactor.run_post(world, &after, world_after) <==> reactor.step.call_post(
            reactor.ctx,
            world,
            after.step,
            after.ctx,
            world_after,
            (),
        ) && after.name == reactor.name,
{
}

/// A reactor that is made of a pipeline or a graph runs it once, on its context.
pub proof fn lemma_pipeline_reactor<R, C, S: CtxStepCall<R, C, (), Out = ()>>(
    reactor: PipelineReactor<C, S>,
    world: World<R>,
    after: PipelineReactor<C, S>,
    world_after: World<R>,
)
    ensures
        reactor.run_pre(world) <==> reactor.body.call_pre(reactor.ctx, world, ()),
        reactor.run_post(world, &after, world_after) <==> reactor.body.call_post(
            reactor.ctx,
            world,
            (),
            after.body,
            after.ctx,
            world_after,
            (),
        ) && after.name == reactor.name,
{
}

/// One of two reactors runs as the one that it is, and stays of its type.
pub proof fn lemma_one_of<R, A: Reactor<R>, B: Reactor<R>>(
    first: A,
    second: B,
    world: World<R>,
    after: OneOf<A, B>,
    world_after: World<R>,
)
    ensures
        OneOf::<A, B>::First(first).run_pre(world) <==> first.run_pre(world),
        OneOf::<A, B>::Second(second).run_pre(world) <==> second.run_pre(world),
        OneOf::<A, B>::First(first).run_post(world, &after, world_after) ==> after is First
            && first.run_post(world, &after->First_0, world_after),
        OneOf::<A, B>::Second(second).run_post(world, &after, world_after) ==> after is Second
            && second.run_post(world, &after->Second_0, world_after),
{
}

fn remove_pending<B>(notify: &mut ReactorNotify<B>, pending: &mut Vec<Token>)
    requires
        old(notify).wf(),
    ensures
        final(notify).wf(),
        final(notify)@ == old(notify)@.remove_all(old(pending)@),
        final(pending)@ == Seq::<Token>::empty(),
{
    while pending.len() > 0
        invariant
            notify.wf(),
            notify@.remove_all(pending@) == old(notify)@.remove_all(old(pending)@),
        decreases pending@.len(),
    {
        let ghost tokens = pending@;
        let token: Token = pending.pop().unwrap();
        assert(pending@ =~= tokens.drop_last());
        notify.remove_reactor(token);
    }
    assert(pending@ =~= Seq::<Token>::empty());
}

/// Dispatches the woken reactors of a world.
pub struct ReactorSystem {
    events: Events,
}

impl ReactorSystem {
    /// The tokens of the last dispatch.
    pub closed spec fn events(&self) -> Seq<Token> {
        self.events.tokens@
    }

    /// For a world that holds reactors and removals.
    pub fn new<R, B, I, J>(
        world: &World<R>,
    ) -> (system: Self) where R: Apart<ReactorNotify<B>, I, DeferredRemovals, J>
        ensures
            system.events() == Seq::<Token>::empty(),
    {
        ReactorSystem { events: Events::with_capacity(256) }
    }

    /// Runs the woken reactors, each once, and then removes those whose removal is pending.
    /// Returns `true` if any reactor ran.
    pub fn dispatch<R, B: Reactor<R>, I, J>(
        &mut self,
        world: &mut World<R>,
    ) -> (ran: bool) where R: Apart<ReactorNotify<B>, I, DeferredRemovals, J>
        requires
            dispatch_pre::<R, B, I, J>(*old(world)),
        ensures
            dispatch_post::<R, B, I, J>(*old(world), *final(world), ran),
            final(self).events() == notify_of::<R, B, I>(*old(world))@.woken,
    {
        let ghost woken = notify_of::<R, B, I>(*world)@.woken;
        let notify: &mut ReactorNotify<B> = world.resource_mut::<ReactorNotify<B>, I>();
        notify.poll(&mut self.events);
        let ghost polled = *notify;
        let ghost world_run = *world;
        let mut ran = false;
        let mut i: usize = 0;
        assert(woken.take(0) =~= Seq::<Token>::empty());
        assert(woken.skip(0) =~= woken);
        while i < self.events.len()
            invariant
                self.events.tokens@ == woken,
                i <= woken.len(),
                frame_pre::<R, B, I>(*world, woken.skip(i as int)),
                frame_post::<R, B, I>(world_run, woken.take(i as int), *world, ran),
            decreases woken.len() - i,
        {
            let ghost rest = woken.skip(i as int);
            let ghost world_mid = *world;
            let token: Token = self.events.tokens[i];
            assert(rest[0] == token);
            assert(rest.drop_first() =~= woken.skip(i + 1));
            let ghost ran_before = ran;
            if take_turn::<R, B, I>(world, token.index()) {
                ran = true;
            }
            proof {
                lemma_frame_push::<R, B, I>(
                    world_run,
                    woken.take(i as int),
                    world_mid,
                    ran_before,
                    token,
                    *world,
                );
                assert(woken.take(i as int).push(token) =~= woken.take(i + 1));
            }
            i = i + 1;
        }
        assert(woken.take(i as int) =~= woken);
        let ghost world_ran = *world;
        let removals: &mut DeferredRemovals = world.resource_mut::<DeferredRemovals, J>();
        let mut pending: Vec<Token> = removals.take();
        let ghost taken = *removals;
        proof {
            world_ran.resources.lemma_apart(notify_of::<R, B, I>(world_ran), taken);
        }
        let notify: &mut ReactorNotify<B> = world.resource_mut::<ReactorNotify<B>, I>();
        remove_pending(notify, &mut pending);
        let ghost left = *notify;
        let removals: &mut DeferredRemovals = world.resource_mut::<DeferredRemovals, J>();
        removals.put(pending);
        proof {
            let put = *removals;
            world_ran.resources.lemma_apart(left, taken);
            let both = <R as Resource<ReactorNotify<B>, I>>::holding(&world_ran.resources, left);
            <R as Resource<DeferredRemovals, J>>::lemma_resource(&both, taken, put);
            assert(world.resources == <R as Resource<DeferredRemovals, J>>::holding(&both, put));
            assert(*world == world_ran.holding::<ReactorNotify<B>, I>(left).holding::<DeferredRemovals, J>(put));
            assert(put@ == Seq::<Token>::empty());
            assert(polled.wf() && left.wf());
        }
        ran
    }

    /// How many slots for reactors are in use.
    pub fn reactor_count<R, B, I>(
        &self,
        world: &World<R>,
    ) -> (count: usize) where R: Resource<ReactorNotify<B>, I>
        ensures
            count == notify_of::<R, B, I>(*world)@.reactors.dom().len(),
    {
        world.resource::<ReactorNotify<B>, I>().reactor_count()
    }
}

/// Gives the reactor in the slot `idx` its turn. Returns whether there was one.
fn take_turn<R, B: Reactor<R>, I>(
    world: &mut World<R>,
    idx: usize,
) -> (ran: bool) where R: Resource<ReactorNotify<B>, I>
    requires
        turn_pre::<R, B, I>(*old(world), idx),
    ensures
        turn_post::<R, B, I>(*old(world), idx, *final(world)),
        ran == (notify_of::<R, B, I>(*old(world))@.body(idx) is Some),
{
    if world.resource::<ReactorNotify<B>, I>().has_reactor(idx) {
        let notify: &mut ReactorNotify<B> = world.resource_mut::<ReactorNotify<B>, I>();
        let taken = notify.take_reactor(idx);
        let ghost without_it = *notify;
        let ghost world_run = *world;
        let mut reactor = taken.unwrap();
        let ghost before = reactor;
        reactor.run(world);
        let ghost world_mid = *world;
        let ghost after = reactor;
        assert(before.run_post(world_run, &after, world_mid));
        let notify: &mut ReactorNotify<B> = world.resource_mut::<ReactorNotify<B>, I>();
        notify.put_reactor(idx, reactor);
        let ghost put = *notify;
        assert(without_it.wf() && put.wf());
        true
    } else {
        false
    }
}

} // verus!
