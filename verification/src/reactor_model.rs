//! What a [`ReactorNotify`](crate::reactor::ReactorNotify) holds, and what its operations make
//! of it.
use crate::keys::{keys_wf, lemma_handed_out, popped, slab_next};
use crate::notify::{lemma_marked_all, lemma_marked_order, marked_all, Token};
use vstd::prelude::*;

verus! {

/// Identifies a data source.
#[derive(Debug, Clone, Copy, PartialEq, Eq, Hash, Structural)]
pub struct DataSource(pub usize);

/// `s` without the occurrences of `x`.
pub open spec fn without<T>(s: Seq<T>, x: T) -> Seq<T>
    decreases s.len(),
{
    if s.len() == 0 {
        s
    } else if s.last() == x {
        without(s.drop_last(), x)
    } else {
        without(s.drop_last(), x).push(s.last())
    }
}

/// Only `x` goes, and nothing comes twice that did not before.
pub proof fn lemma_without<T>(s: Seq<T>, x: T)
    ensures
        forall|y: T| #[trigger] without(s, x).contains(y) <==> s.contains(y) && y != x,
        s.no_duplicates() ==> without(s, x).no_duplicates(),
        !s.contains(x) ==> without(s, x) == s,
        without(s, x).len() <= s.len(),
    decreases s.len(),
{
    if s.len() > 0 {
        let front = s.drop_last();
        let last = s.last();
        lemma_without(front, x);
        let r = without(s, x);
        assert(s =~= front.push(last));
        assert forall|y: T| s.contains(y) <==> front.contains(y) || y == last by {
            if front.contains(y) {
                let i = choose|i: int| 0 <= i < front.len() && front[i] == y;
                assert(s[i] == y);
            }
            assert(s[s.len() - 1] == last);
            if s.contains(y) {
                let i = choose|i: int| 0 <= i < s.len() && s[i] == y;
                if i < front.len() {
                    assert(front[i] == y);
                }
            }
        }
        if last != x {
            let f = without(front, x);
            assert(r == f.push(last));
            assert forall|y: T| #[trigger] r.contains(y) <==> s.contains(y) && y != x by {
                if f.contains(y) {
                    let i = choose|i: int| 0 <= i < f.len() && f[i] == y;
                    assert(r[i] == y);
                }
                assert(r[r.len() - 1] == last);
                if r.contains(y) {
                    let i = choose|i: int| 0 <= i < r.len() && r[i] == y;
                    if i < f.len() {
                        assert(f[i] == y);
                    }
                }
            }
            if s.no_duplicates() {
                assert(front.no_duplicates());
                assert(!front.contains(last)) by {
                    if front.contains(last) {
                        let i = choose|i: int| 0 <= i < front.len() && front[i] == last;
                        assert(s[i] == s[s.len() - 1]);
                    }
                }
                assert(!f.contains(last));
                assert(r.no_duplicates());
            }
            if !s.contains(x) {
                assert(!front.contains(x));
                assert(r =~= s);
            }
        } else {
            assert(s.contains(x));
            if s.no_duplicates() {
                assert(front.no_duplicates());
            }
        }
    }
}

/// Sources with their subscribers, reactors with their slots, and the reactors that are woken.
#[verifier::ext_equal]
pub struct NotifyModel<B> {
    /// The subscribers of each source, in the order of their subscriptions.
    pub sources: Map<usize, Seq<Token>>,
    /// The sources removed, the last one in front.
    pub vacated_sources: Seq<usize>,
    /// The slots in use. A slot is empty until it is filled, and while its reactor runs.
    pub reactors: Map<usize, Option<B>>,
    /// The slots given back, the last one in front.
    pub vacated_reactors: Seq<usize>,
    /// The sources that each slot's reactor has subscribed to.
    pub index: Seq<Seq<DataSource>>,
    /// The reactors woken since the last poll, in the order in which they were.
    pub woken: Seq<Token>,
}

impl<B> NotifyModel<B> {
    /// No source, no reactor, nothing woken.
    pub open spec fn empty() -> Self {
        NotifyModel {
            sources: Map::empty(),
            vacated_sources: Seq::empty(),
            reactors: Map::empty(),
            vacated_reactors: Seq::empty(),
            index: Seq::empty(),
            woken: Seq::empty(),
        }
    }

    /// A reactor is subscribed to a source at most once, each subscription is indexed under its
    /// reactor, and a reactor is woken at most once.
    pub open spec fn wf(&self) -> bool {
        &&& self.sources.dom().finite()
        &&& self.reactors.dom().finite()
        &&& self.index.len() == self.reactors.dom().len() + self.vacated_reactors.len()
        &&& forall|k: usize| #[trigger] self.reactors.dom().contains(k) ==> k < self.index.len()
        &&& forall|s: usize| #[trigger] self.sources.dom().contains(s)
                ==> self.sources[s].no_duplicates()
        &&& forall|s: usize, t: Token|
            self.sources.dom().contains(s) && #[trigger] self.sources[s].contains(t)
                ==> t.idx < self.index.len()
                && self.index[t.idx as int].contains(DataSource(s))
        &&& self.woken.no_duplicates()
    }

    pub open spec fn next_source(&self) -> nat {
        slab_next(self.sources.dom(), self.vacated_sources)
    }

    pub open spec fn next_reactor(&self) -> nat {
        slab_next(self.reactors.dom(), self.vacated_reactors)
    }

    /// A new source, without subscribers.
    pub open spec fn register_source(self) -> Self {
        NotifyModel {
            sources: self.sources.insert(self.next_source() as usize, Seq::empty()),
            vacated_sources: popped(self.vacated_sources),
            ..self
        }
    }

    /// The source goes, with its subscribers. Nothing changes where there is no such source.
    pub open spec fn remove_source(self, source: DataSource) -> Self {
        if self.sources.dom().contains(source.0) {
            NotifyModel {
                sources: self.sources.remove(source.0),
                vacated_sources: seq![source.0] + self.vacated_sources,
                ..self
            }
        } else {
            self
        }
    }

    /// A new slot that holds `body`.
    pub open spec fn create(self, body: Option<B>) -> Self {
        let key = self.next_reactor() as usize;
        NotifyModel {
            reactors: self.reactors.insert(key, body),
            vacated_reactors: popped(self.vacated_reactors),
            index: if key < self.index.len() {
                self.index
            } else {
                self.index.push(Seq::empty())
            },
            ..self
        }
    }

    /// The slot `idx` holds `body`.
    pub open spec fn fill(self, idx: usize, body: Option<B>) -> Self {
        NotifyModel { reactors: self.reactors.insert(idx, body), ..self }
    }

    /// The reactor in the slot `idx`, if there is one.
    pub open spec fn body(&self, idx: usize) -> Option<B> {
        if self.reactors.dom().contains(idx) {
            self.reactors[idx]
        } else {
            None
        }
    }

    /// The slot `idx` is empty, if there is one.
    pub open spec fn taken(self, idx: usize) -> Self {
        if self.reactors.dom().contains(idx) {
            self.fill(idx, None)
        } else {
            self
        }
    }

    /// The reactor is subscribed to the source. Nothing changes where it is already, or where
    /// there is no such source.
    pub open spec fn subscribe(self, reactor: Token, source: DataSource) -> Self {
        if self.sources.dom().contains(source.0) && !self.sources[source.0].contains(reactor) {
            NotifyModel {
                sources: self.sources.insert(source.0, self.sources[source.0].push(reactor)),
                index: self.index.update(
                    reactor.idx as int,
                    self.index[reactor.idx as int].push(source),
                ),
                ..self
            }
        } else {
            self
        }
    }

    /// The reactor is not subscribed to the source.
    pub open spec fn unsubscribe(self, reactor: Token, source: DataSource) -> Self {
        NotifyModel {
            sources: if self.sources.dom().contains(source.0) {
                self.sources.insert(source.0, without(self.sources[source.0], reactor))
            } else {
                self.sources
            },
            index: if reactor.idx < self.index.len() {
                self.index.update(
                    reactor.idx as int,
                    without(self.index[reactor.idx as int], source),
                )
            } else {
                self.index
            },
            ..self
        }
    }

    /// The subscribers of the source are woken. Nothing changes where there is no such source.
    pub open spec fn mark(self, source: DataSource) -> Self {
        NotifyModel {
            woken: if self.sources.dom().contains(source.0) {
                marked_all(self.woken, self.sources[source.0])
            } else {
                self.woken
            },
            ..self
        }
    }

    /// Nothing is woken any more.
    pub open spec fn polled(self) -> Self {
        NotifyModel { woken: Seq::empty(), ..self }
    }

    /// The slot is given back, and no source has the reactor as a subscriber. Nothing changes
    /// where there is no such slot.
    pub open spec fn remove_reactor(self, token: Token) -> Self {
        if self.reactors.dom().contains(token.idx) {
            NotifyModel {
                sources: self.sources.map_values(|subscribers: Seq<Token>| without(subscribers, token)),
                reactors: self.reactors.remove(token.idx),
                vacated_reactors: seq![token.idx] + self.vacated_reactors,
                index: self.index.update(token.idx as int, Seq::empty()),
                ..self
            }
        } else {
            self
        }
    }

    /// The reactors of `tokens` are removed, the last token first.
    pub open spec fn remove_all(self, tokens: Seq<Token>) -> Self
        decreases tokens.len(),
    {
        if tokens.len() == 0 {
            self
        } else {
            self.remove_reactor(tokens.last()).remove_all(tokens.drop_last())
        }
    }

    /// Whether the reactor is among the source's subscribers.
    pub open spec fn subscribed(&self, reactor: Token, source: DataSource) -> bool {
        self.sources.dom().contains(source.0) && self.sources[source.0].contains(reactor)
    }

    /// A mark wakes the source's subscribers and no other reactor. A reactor that is woken
    /// already, be it by another source, is not woken twice.
    pub proof fn lemma_mark(self, source: DataSource)
        requires
            self.wf(),
        ensures
            self.mark(source).wf(),
            self.mark(source).woken.no_duplicates(),
            forall|t: Token| #[trigger] self.mark(source).woken.contains(t)
                <==> self.woken.contains(t) || self.subscribed(t, source),
            self.mark(source).mark(source) == self.mark(source),
    {
        if self.sources.dom().contains(source.0) {
            let tokens = self.sources[source.0];
            lemma_marked_all(self.woken, tokens);
            lemma_marked_again(marked_all(self.woken, tokens), tokens);
        }
    }

    /// A mark of a source that was removed wakes no reactor.
    pub proof fn lemma_mark_removed(self, source: DataSource)
        ensures
            self.remove_source(source).mark(source) == self.remove_source(source),
    {
    }

    /// Subscribing a second time changes nothing.
    pub proof fn lemma_subscribe_twice(self, reactor: Token, source: DataSource)
        requires
            self.wf(),
            self.sources.dom().contains(source.0) ==> reactor.idx < self.index.len(),
        ensures
            self.subscribe(reactor, source).subscribe(reactor, source)
                == self.subscribe(reactor, source),
            self.sources.dom().contains(source.0)
                ==> self.subscribe(reactor, source).subscribed(reactor, source),
    {
        if self.sources.dom().contains(source.0) && !self.sources[source.0].contains(reactor) {
            let now = self.sources[source.0].push(reactor);
            assert(now[now.len() - 1] == reactor);
        }
    }

    /// A subscription that is taken back leaves the subscribers as they were.
    pub proof fn lemma_unsubscribe(self, reactor: Token, source: DataSource)
        requires
            self.wf(),
            !self.subscribed(reactor, source),
            self.sources.dom().contains(source.0) ==> reactor.idx < self.index.len(),
        ensures
            !self.subscribe(reactor, source).unsubscribe(reactor, source).subscribed(reactor, source),
            self.subscribe(reactor, source).unsubscribe(reactor, source).sources == self.sources,
    {
        if self.sources.dom().contains(source.0) {
            let subscribers = self.sources[source.0];
            let now = subscribers.push(reactor);
            assert(now.drop_last() =~= subscribers);
            lemma_without(subscribers, reactor);
            assert(without(now, reactor) == subscribers);
            assert(self.subscribe(reactor, source).unsubscribe(reactor, source).sources =~= self.sources);
        }
    }

    /// A reactor that was removed is subscribed to no source, so that no mark wakes it, and its
    /// slot is the next to be handed out. Removing it again changes nothing.
    pub proof fn lemma_remove_reactor(self, token: Token)
        requires
            self.wf(),
        ensures
            self.remove_reactor(token).wf(),
            self.reactors.dom().contains(token.idx)
                ==> forall|s: DataSource| !#[trigger] self.remove_reactor(token).subscribed(token, s),
            self.reactors.dom().contains(token.idx)
                ==> self.remove_reactor(token).next_reactor() == token.idx,
            !self.remove_reactor(token).reactors.dom().contains(token.idx),
            self.remove_reactor(token).remove_reactor(token) == self.remove_reactor(token),
            forall|t: Token, s: DataSource|
                t != token
                    ==> #[trigger] self.remove_reactor(token).subscribed(t, s)
                        == self.subscribed(t, s),
    {
        if self.reactors.dom().contains(token.idx) {
            let now = self.remove_reactor(token);
            assert(now.sources.dom() =~= self.sources.dom());
            assert forall|s: usize| #[trigger] self.sources.dom().contains(s)
                implies now.sources[s] == without(self.sources[s], token) by {}
            assert forall|s: usize| #[trigger] now.sources.dom().contains(s)
                implies now.sources[s].no_duplicates() by {
                lemma_without(self.sources[s], token);
            }
            assert forall|s: usize, t: Token|
                now.sources.dom().contains(s)
                    && #[trigger] now.sources[s].contains(t) implies t.idx < now.index.len()
                && now.index[t.idx as int].contains(DataSource(s)) by {
                lemma_without(self.sources[s], token);
                assert(self.sources[s].contains(t));
                assert(t != token);
                if t.idx == token.idx {
                    assert(t == token);
                }
            }
            assert(now.vacated_reactors[0] == token.idx);
            assert forall|t: Token, s: DataSource| t != token
                implies #[trigger] now.subscribed(t, s) == self.subscribed(t, s) by {
                if self.sources.dom().contains(s.0) {
                    lemma_without(self.sources[s.0], token);
                }
            }
            assert forall|s: DataSource| !#[trigger] now.subscribed(token, s) by {
                if self.sources.dom().contains(s.0) {
                    lemma_without(self.sources[s.0], token);
                }
            }
        }
    }

    /// None of the reactors that are removed together keeps its slot or a subscription, and no
    /// other reactor gains one.
    pub proof fn lemma_remove_all(self, tokens: Seq<Token>)
        requires
            self.wf(),
        ensures
            self.remove_all(tokens).wf(),
            forall|t: Token| tokens.contains(t)
                ==> !#[trigger] self.remove_all(tokens).reactors.dom().contains(t.idx),
            forall|k: usize| #[trigger] self.remove_all(tokens).reactors.dom().contains(k)
                ==> self.reactors.dom().contains(k),
            forall|t: Token, s: DataSource| #[trigger] self.remove_all(tokens).subscribed(t, s)
                ==> self.subscribed(t, s),
            forall|t: Token, s: DataSource|
                tokens.contains(t) && self.reactors.dom().contains(t.idx)
                    ==> !#[trigger] self.remove_all(tokens).subscribed(t, s),
        decreases tokens.len(),
    {
        if tokens.len() > 0 {
            let last = tokens.last();
            let front = tokens.drop_last();
            let mid = self.remove_reactor(last);
            let end = self.remove_all(tokens);
            self.lemma_remove_reactor(last);
            mid.lemma_remove_all(front);
            assert forall|t: Token, s: DataSource| #[trigger] end.subscribed(t, s)
                implies self.subscribed(t, s) by {
                assert(mid.subscribed(t, s));
            }
            assert forall|t: Token| tokens.contains(t) implies t == last || front.contains(t) by {
                let i = choose|i: int| 0 <= i < tokens.len() && tokens[i] == t;
                if i < front.len() {
                    assert(front[i] == t);
                }
            }
            assert forall|t: Token| tokens.contains(t)
                implies !#[trigger] end.reactors.dom().contains(t.idx) by {
                if t == last && end.reactors.dom().contains(t.idx) {
                    assert(mid.reactors.dom().contains(t.idx));
                }
            }
            assert forall|t: Token, s: DataSource|
                tokens.contains(t)
                    && self.reactors.dom().contains(t.idx)
                        implies !#[trigger] end.subscribed(t, s) by {
                if end.subscribed(t, s) {
                    assert(mid.subscribed(t, s));
                    assert(t != last);
                    assert(front.contains(t));
                    if !mid.reactors.dom().contains(t.idx) {
                        assert(t.idx == last.idx);
                    }
                }
            }
        }
    }

    /// The slot of a removed source is the next to be handed out, and starts without subscribers.
    pub proof fn lemma_source_reuse(self, source: DataSource)
        requires
            self.sources.dom().contains(source.0),
        ensures
            self.remove_source(source).next_source() == source.0,
            self.remove_source(source).register_source().sources
                == self.sources.insert(source.0, Seq::empty()),
            self.remove_source(source).remove_source(source) == self.remove_source(source),
    {
        let gone = self.remove_source(source);
        assert(gone.vacated_sources[0] == source.0);
        assert(gone.register_source().sources =~= self.sources.insert(source.0, Seq::empty()));
    }

    /// To begin with there is no source and no reactor, and nothing is woken.
    pub proof fn lemma_empty()
        ensures
            Self::empty().wf(),
            forall|k: usize| !#[trigger] Self::empty().sources.dom().contains(k),
            forall|k: usize| !#[trigger] Self::empty().reactors.dom().contains(k),
            Self::empty().woken.len() == 0,
            Self::empty().next_source() == 0,
            Self::empty().next_reactor() == 0,
    {
    }

    /// A source that is registered is new, has no subscriber, and changes nothing else: the other
    /// sources keep their subscribers, the reactors their slots, and what is woken stays woken.
    pub proof fn lemma_register_source(self)
        requires
            keys_wf(self.sources.dom(), self.vacated_sources),
            self.next_source() <= usize::MAX,
        ensures
            ({
                let now = self.register_source();
                let key = self.next_source() as usize;
                &&& !self.sources.dom().contains(key)
                &&& now.sources.dom() == self.sources.dom().insert(key)
                &&& now.sources[key].len() == 0
                &&& forall|s: usize| #[trigger] self.sources.dom().contains(s)
                        ==> now.sources[s] == self.sources[s]
                &&& now.reactors == self.reactors
                &&& now.vacated_reactors == self.vacated_reactors
                &&& now.index == self.index
                &&& now.woken == self.woken
                &&& keys_wf(now.sources.dom(), now.vacated_sources)
            }),
    {
        let key = self.next_source() as usize;
        lemma_handed_out(self.sources.dom(), self.vacated_sources, key);
        assert(self.register_source().sources.dom() =~= self.sources.dom().insert(key));
    }

    /// A source that is removed is gone, and nothing else changes: the other sources keep their
    /// subscribers, the reactors their slots, and what is woken stays woken.
    pub proof fn lemma_remove_source(self, source: DataSource)
        ensures
            ({
                let now = self.remove_source(source);
                &&& !now.sources.dom().contains(source.0)
                &&& forall|s: usize| s != source.0
                        ==> (#[trigger] now.sources.dom().contains(s)
                            <==> self.sources.dom().contains(s))
                &&& forall|s: usize| s != source.0 && #[trigger] self.sources.dom().contains(s)
                        ==> now.sources[s] == self.sources[s]
                &&& now.reactors == self.reactors
                &&& now.vacated_reactors == self.vacated_reactors
                &&& now.index == self.index
                &&& now.woken == self.woken
            }),
    {
    }

    /// A reactor that is registered comes into a new slot, and nothing else changes: what is
    /// woken stays woken, every source keeps its subscribers, and every other slot its reactor.
    /// Where the slot was never used before, no source has its token as a subscriber.
    pub proof fn lemma_create(self, body: Option<B>)
        requires
            self.wf(),
            keys_wf(self.reactors.dom(), self.vacated_reactors),
            self.next_reactor() <= usize::MAX,
        ensures
            ({
                let now = self.create(body);
                let key = self.next_reactor() as usize;
                &&& !self.reactors.dom().contains(key)
                &&& now.reactors.dom() == self.reactors.dom().insert(key)
                &&& now.reactors[key] == body
                &&& forall|k: usize| #[trigger] self.reactors.dom().contains(k)
                        ==> now.reactors[k] == self.reactors[k]
                &&& now.sources == self.sources
                &&& now.vacated_sources == self.vacated_sources
                &&& now.woken == self.woken
                &&& key < now.index.len()
                &&& forall|k: int| 0 <= k < self.index.len()
                        ==> #[trigger] now.index[k] == self.index[k]
                &&& key >= self.index.len() ==> forall|s: usize|
                    #[trigger] now.sources.dom().contains(s)
                        ==> !now.sources[s].contains(Token { idx: key })
                &&& keys_wf(now.reactors.dom(), now.vacated_reactors)
            }),
    {
        let key = self.next_reactor() as usize;
        lemma_handed_out(self.reactors.dom(), self.vacated_reactors, key);
        assert(self.create(body).reactors.dom() =~= self.reactors.dom().insert(key));
    }

    /// The slot of a reactor that was removed is used again, and its token, which was subscribed
    /// to sources before, is subscribed to none.
    pub proof fn lemma_slot_reuse(self, token: Token, body: Option<B>)
        requires
            self.wf(),
            self.reactors.dom().contains(token.idx),
        ensures
            ({
                let gone = self.remove_reactor(token);
                let now = gone.create(body);
                &&& gone.next_reactor() == token.idx
                &&& now.reactors.dom() == self.reactors.dom()
                &&& now.reactors[token.idx] == body
                &&& forall|k: usize| k != token.idx && #[trigger] self.reactors.dom().contains(k)
                        ==> now.reactors[k] == self.reactors[k]
                &&& now.woken == self.woken
                &&& forall|s: usize| #[trigger] now.sources.dom().contains(s)
                        ==> !now.sources[s].contains(token)
            }),
    {
        let gone = self.remove_reactor(token);
        let now = gone.create(body);
        self.lemma_remove_reactor(token);
        assert(now.reactors.dom() =~= self.reactors.dom());
        assert forall|s: usize| #[trigger] now.sources.dom().contains(s)
            implies !now.sources[s].contains(token) by {
            lemma_without(self.sources[s], token);
        }
    }

    /// Putting a reactor into its slot, or taking it out, changes that slot alone.
    pub proof fn lemma_fill(self, idx: usize, body: Option<B>)
        ensures
            self.fill(idx, body).body(idx) == body,
            self.taken(idx).body(idx) is None,
            forall|k: usize| k != idx ==> #[trigger] self.fill(idx, body).body(k) == self.body(k),
            forall|k: usize| k != idx ==> #[trigger] self.taken(idx).body(k) == self.body(k),
            forall|k: usize| #[trigger] self.fill(idx, body).reactors.dom().contains(k)
                <==> self.reactors.dom().contains(k) || k == idx,
            self.taken(idx).reactors.dom() == self.reactors.dom(),
            self.fill(idx, body).sources == self.sources,
            self.taken(idx).sources == self.sources,
            self.fill(idx, body).woken == self.woken,
            self.taken(idx).woken == self.woken,
            self.fill(idx, body).index == self.index,
            self.taken(idx).index == self.index,
            self.fill(idx, body).vacated_sources == self.vacated_sources,
            self.taken(idx).vacated_sources == self.vacated_sources,
            self.fill(idx, body).vacated_reactors == self.vacated_reactors,
            self.taken(idx).vacated_reactors == self.vacated_reactors,
            self.reactors.dom().contains(idx) ==> self.taken(idx).fill(idx, self.body(idx)) == self,
    {
        assert(self.taken(idx).reactors.dom() =~= self.reactors.dom());
        if self.reactors.dom().contains(idx) {
            assert(self.taken(idx).fill(idx, self.body(idx)).reactors =~= self.reactors);
        }
    }

    /// A slot in use holds the reactor that is found there, and no other slot holds one.
    pub proof fn lemma_body(self, idx: usize)
        ensures
            self.reactors.dom().contains(idx) ==> self.body(idx) == self.reactors[idx],
            !self.reactors.dom().contains(idx) ==> self.body(idx) is None,
    {
    }

    /// Subscribing a reactor to a source makes it the last of the source's subscribers, if it is
    /// not among them yet. Every other pair of reactor and source is as it was, and so are the
    /// slots and what is woken.
    pub proof fn lemma_subscribe(self, reactor: Token, source: DataSource)
        requires
            self.wf(),
            self.sources.dom().contains(source.0) ==> reactor.idx < self.index.len(),
        ensures
            ({
                let now = self.subscribe(reactor, source);
                &&& now.sources.dom() == self.sources.dom()
                &&& self.sources.dom().contains(source.0)
                    ==> now.sources[source.0].contains(reactor)
                &&& forall|s: usize, t: Token|
                    self.sources.dom().contains(s) && (t != reactor || s != source.0)
                        ==> (#[trigger] now.sources[s].contains(t) <==> self.sources[s].contains(t))
                &&& forall|s: usize| #[trigger] self.sources.dom().contains(s)
                        ==> self.sources[s].is_prefix_of(now.sources[s])
                &&& forall|s: usize| #[trigger] self.sources.dom().contains(s)
                        ==> now.sources[s].no_duplicates()
                &&& now.reactors == self.reactors
                &&& now.vacated_reactors == self.vacated_reactors
                &&& now.vacated_sources == self.vacated_sources
                &&& now.woken == self.woken
            }),
    {
        let now = self.subscribe(reactor, source);
        assert(now.sources.dom() =~= self.sources.dom());
        if self.sources.dom().contains(source.0) && !self.sources[source.0].contains(reactor) {
            let list = self.sources[source.0];
            assert(list.push(reactor)[list.len() as int] == reactor);
            assert forall|t: Token| t != reactor implies (#[trigger] list.push(reactor).contains(t)
                <==> list.contains(t)) by {
                if list.contains(t) {
                    let i = choose|i: int| 0 <= i < list.len() && list[i] == t;
                    assert(list.push(reactor)[i] == t);
                }
            }
        }
    }

    /// After unsubscribing, the reactor is not among the source's subscribers, whether it was
    /// before or not. Every other pair of reactor and source is as it was, the other subscribers
    /// keep their order, and so do the slots and what is woken.
    pub proof fn lemma_unsubscribed(self, reactor: Token, source: DataSource)
        requires
            self.wf(),
        ensures
            ({
                let now = self.unsubscribe(reactor, source);
                &&& now.sources.dom() == self.sources.dom()
                &&& forall|s: usize, t: Token| self.sources.dom().contains(s)
                        ==> (#[trigger] now.sources[s].contains(t) <==> self.sources[s].contains(t)
                        && !(t == reactor && s == source.0))
                &&& forall|s: usize| s != source.0 && #[trigger] self.sources.dom().contains(s)
                        ==> now.sources[s] == self.sources[s]
                &&& self.sources.dom().contains(source.0) ==> now.sources[source.0]
                    == self.sources[source.0].filter(|t: Token| t != reactor)
                &&& now.reactors == self.reactors
                &&& now.vacated_reactors == self.vacated_reactors
                &&& now.vacated_sources == self.vacated_sources
                &&& now.woken == self.woken
                &&& now.wf()
            }),
    {
        let now = self.unsubscribe(reactor, source);
        assert(now.sources.dom() =~= self.sources.dom());
        if self.sources.dom().contains(source.0) {
            lemma_without(self.sources[source.0], reactor);
            lemma_without_order(self.sources[source.0], reactor, |t: Token| t != reactor);
        }
        if reactor.idx < self.index.len() {
            lemma_without(self.index[reactor.idx as int], source);
        }
        assert forall|s: usize, t: Token|
            now.sources.dom().contains(s)
                && #[trigger] now.sources[s].contains(t) implies t.idx < now.index.len()
            && now.index[t.idx as int].contains(DataSource(s)) by {
            assert(self.sources[s].contains(t));
            if t.idx == reactor.idx {
                assert(t == reactor);
                assert(s != source.0);
            }
        }
    }

    /// A mark wakes the source's subscribers that are not woken yet, in the order in which they
    /// subscribed, behind those woken before. It changes nothing but what is woken.
    pub proof fn lemma_mark_order(self, source: DataSource)
        requires
            self.wf(),
        ensures
            ({
                let now = self.mark(source);
                &&& now.woken == self.woken + (if self.sources.dom().contains(source.0) {
                    self.sources[source.0].filter(|t: Token| !self.woken.contains(t))
                } else {
                    Seq::empty()
                })
                &&& now.sources == self.sources
                &&& now.vacated_sources == self.vacated_sources
                &&& now.reactors == self.reactors
                &&& now.vacated_reactors == self.vacated_reactors
                &&& now.index == self.index
            }),
    {
        if self.sources.dom().contains(source.0) {
            lemma_marked_order(self.woken, self.sources[source.0]);
        } else {
            assert(self.woken + Seq::empty() =~= self.woken);
        }
    }

    /// A poll takes what is woken, and changes nothing else.
    pub proof fn lemma_polled(self)
        ensures
            self.polled().woken.len() == 0,
            self.polled().sources == self.sources,
            self.polled().vacated_sources == self.vacated_sources,
            self.polled().reactors == self.reactors,
            self.polled().vacated_reactors == self.vacated_reactors,
            self.polled().index == self.index,
    {
    }

    /// Removing a reactor takes its token from every source, where the others keep their order,
    /// and its slot. The other slots keep their reactors, and what is woken stays woken.
    pub proof fn lemma_removed(self, token: Token)
        requires
            self.wf(),
        ensures
            ({
                let now = self.remove_reactor(token);
                &&& !now.reactors.dom().contains(token.idx)
                &&& forall|k: usize| k != token.idx
                        ==> (#[trigger] now.reactors.dom().contains(k)
                            <==> self.reactors.dom().contains(k))
                &&& forall|k: usize| k != token.idx && #[trigger] self.reactors.dom().contains(k)
                        ==> now.reactors[k] == self.reactors[k]
                &&& now.sources.dom() == self.sources.dom()
                &&& forall|s: usize|
                    self.reactors.dom().contains(token.idx)
                        && #[trigger] self.sources.dom().contains(s)
                        ==> now.sources[s] == self.sources[s].filter(|t: Token| t != token)
                &&& !self.reactors.dom().contains(token.idx) ==> now.sources == self.sources
                &&& now.vacated_sources == self.vacated_sources
                &&& now.woken == self.woken
            }),
    {
        let now = self.remove_reactor(token);
        assert(now.sources.dom() =~= self.sources.dom());
        assert forall|s: usize|
            self.reactors.dom().contains(token.idx) && #[trigger] self.sources.dom().contains(s)
                implies now.sources[s] == self.sources[s].filter(|t: Token| t != token) by {
            lemma_without_order(self.sources[s], token, |t: Token| t != token);
        }
    }

    /// Of several reactors, the last is removed first and the first last, so that the slot of the
    /// first is the next to be handed out.
    pub proof fn lemma_removal_order(self, tokens: Seq<Token>)
        requires
            tokens.len() > 0,
        ensures
            self.remove_all(tokens) == self.remove_all(tokens.drop_first()).remove_reactor(tokens[0]),
            self.remove_all(Seq::empty()) == self,
            self.remove_all(tokens.drop_first()).reactors.dom().contains(tokens[0].idx)
                ==> self.remove_all(tokens).next_reactor() == tokens[0].idx,
        decreases tokens.len(),
    {
        let rest = tokens.drop_first();
        let front = tokens.drop_last();
        if tokens.len() == 1 {
            assert(rest =~= Seq::empty());
            assert(front =~= Seq::empty());
            assert(tokens.last() == tokens[0]);
            assert(self.remove_reactor(tokens[0]).remove_all(front)
                == self.remove_reactor(tokens[0]));
            assert(self.remove_all(rest) == self);
        } else {
            let mid = self.remove_reactor(tokens.last());
            mid.lemma_removal_order(front);
            assert(front.drop_first() =~= rest.drop_last());
            assert(front[0] == tokens[0]);
            assert(rest.last() == tokens.last());
            assert(self.remove_all(rest) == mid.remove_all(rest.drop_last()));
        }
        let left = self.remove_all(rest);
        if left.reactors.dom().contains(tokens[0].idx) {
            assert(left.remove_reactor(tokens[0]).vacated_reactors[0] == tokens[0].idx);
        }
    }

    /// Removing reactors leaves what is woken, the slots and reactors of all others, and their
    /// subscriptions as they are.
    pub proof fn lemma_removed_all(self, tokens: Seq<Token>)
        requires
            self.wf(),
        ensures
            ({
                let now = self.remove_all(tokens);
                &&& now.woken == self.woken
                &&& now.sources.dom() == self.sources.dom()
                &&& now.vacated_sources == self.vacated_sources
                &&& forall|k: usize| #[trigger] now.reactors.dom().contains(k)
                        <==> self.reactors.dom().contains(k) && !tokens.contains(Token { idx: k })
                &&& forall|k: usize| #[trigger] now.reactors.dom().contains(k)
                        ==> now.reactors[k] == self.reactors[k]
                &&& forall|s: usize, t: Token|
                    self.sources.dom().contains(s) && !tokens.contains(t)
                        ==> (#[trigger] now.sources[s].contains(t) <==> self.sources[s].contains(t))
                &&& forall|s: usize, t: Token|
                    self.sources.dom().contains(s) && tokens.contains(t)
                        && self.reactors.dom().contains(t.idx)
                        ==> !#[trigger] now.sources[s].contains(t)
            }),
        decreases tokens.len(),
    {
        if tokens.len() > 0 {
            let last = tokens.last();
            let front = tokens.drop_last();
            let mid = self.remove_reactor(last);
            let now = self.remove_all(tokens);
            self.lemma_remove_reactor(last);
            self.lemma_removed(last);
            mid.lemma_removed_all(front);
            assert forall|t: Token| #[trigger] tokens.contains(t)
                <==> front.contains(t) || t == last by {
                if tokens.contains(t) {
                    let i = choose|i: int| 0 <= i < tokens.len() && tokens[i] == t;
                    if i < front.len() {
                        assert(front[i] == t);
                    }
                }
                if front.contains(t) {
                    let i = choose|i: int| 0 <= i < front.len() && front[i] == t;
                    assert(tokens[i] == t);
                }
                assert(tokens[tokens.len() - 1] == last);
            }
            assert forall|k: usize| #[trigger] now.reactors.dom().contains(k)
                <==> self.reactors.dom().contains(k) && !tokens.contains(Token { idx: k }) by {
                assert(tokens.contains(Token { idx: k }) <==> front.contains(Token { idx: k })
                    || Token { idx: k } == last);
                assert(now.reactors.dom().contains(k) <==> mid.reactors.dom().contains(k)
                    && !front.contains(Token { idx: k }));
                assert(mid.reactors.dom().contains(k) <==> self.reactors.dom().contains(k)
                    && k != last.idx);
            }
            assert forall|s: usize, t: Token|
                self.sources.dom().contains(s)
                    && t != last implies (#[trigger] mid.sources[s].contains(t)
                <==> self.sources[s].contains(t)) by {
                assert(mid.subscribed(t, DataSource(s)) == self.subscribed(t, DataSource(s)));
            }
            assert forall|s: usize, t: Token|
                self.sources.dom().contains(s) && tokens.contains(t)
                    && self.reactors.dom().contains(t.idx)
                implies !#[trigger] now.sources[s].contains(t) by {
                if t == last {
                    assert(!mid.subscribed(last, DataSource(s)));
                    if front.contains(t) {
                        if now.sources[s].contains(t) {
                            mid.lemma_remove_all(front);
                            assert(now.subscribed(t, DataSource(s)));
                        }
                    }
                } else {
                    assert(front.contains(t));
                    if t.idx == last.idx {
                        assert(t == last);
                    }
                }
            }
        }
    }
}

/// Taking `x` out leaves what differs from it, in the same order.
pub proof fn lemma_without_order<T>(s: Seq<T>, x: T, differs: spec_fn(T) -> bool)
    requires
        forall|y: T| #[trigger] differs(y) <==> y != x,
    ensures
        without(s, x) == s.filter(differs),
    decreases s.len(),
{
    reveal(Seq::filter);
    if s.len() > 0 {
        lemma_without_order(s.drop_last(), x, differs);
    }
}

/// Marking what is marked already changes nothing.
pub proof fn lemma_marked_again(woken: Seq<Token>, tokens: Seq<Token>)
    requires
        forall|t: Token| tokens.contains(t) ==> #[trigger] woken.contains(t),
    ensures
        marked_all(woken, tokens) == woken,
    decreases tokens.len(),
{
    if tokens.len() > 0 {
        let front = tokens.drop_last();
        assert forall|t: Token| front.contains(t) implies #[trigger] woken.contains(t) by {
            let i = choose|i: int| 0 <= i < front.len() && front[i] == t;
            assert(tokens[i] == t);
        }
        lemma_marked_again(woken, front);
        assert(tokens[tokens.len() - 1] == tokens.last());
        assert(tokens.contains(tokens.last()));
    }
}

} // verus!
