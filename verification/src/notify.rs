//! Notifications: tokens that are marked, each at most once, until they are polled.
use vstd::prelude::*;

verus! {

/// Identifies what is notified.
#[derive(Debug, Clone, Copy, PartialEq, Eq, Hash, Structural)]
pub struct Token {
    pub idx: usize,
}

impl Token {
    pub fn new(idx: usize) -> (token: Token)
        ensures
            token.idx == idx,
    {
        Token { idx }
    }

    pub fn index(&self) -> (idx: usize)
        ensures
            idx == self.idx,
    {
        self.idx
    }
}

/// The tokens of one poll.
pub struct Events {
    pub tokens: Vec<Token>,
}

impl Events {
    pub fn with_capacity(capacity: usize) -> (events: Events)
        ensures
            events.tokens@ == Seq::<Token>::empty(),
    {
        Events { tokens: Vec::with_capacity(capacity) }
    }

    pub fn is_empty(&self) -> (empty: bool)
        ensures
            empty == (self.tokens@.len() == 0),
    {
        self.tokens.len() == 0
    }

    pub fn len(&self) -> (len: usize)
        ensures
            len == self.tokens@.len(),
    {
        self.tokens.len()
    }

    pub fn as_slice(&self) -> (tokens: &[Token])
        ensures
            tokens@ == self.tokens@,
    {
        self.tokens.as_slice()
    }
}

/// The marked tokens once `token` is marked too.
pub open spec fn marked(woken: Seq<Token>, token: Token) -> Seq<Token> {
    if woken.contains(token) {
        woken
    } else {
        woken.push(token)
    }
}

/// The marked tokens once `tokens` are marked too, in order.
pub open spec fn marked_all(woken: Seq<Token>, tokens: Seq<Token>) -> Seq<Token>
    decreases tokens.len(),
{
    if tokens.len() == 0 {
        woken
    } else {
        marked(marked_all(woken, tokens.drop_last()), tokens.last())
    }
}

/// Marking adds the tokens that were not marked yet, and no token twice.
pub proof fn lemma_marked_all(woken: Seq<Token>, tokens: Seq<Token>)
    requires
        woken.no_duplicates(),
    ensures
        marked_all(woken, tokens).no_duplicates(),
        forall|t: Token| #[trigger] marked_all(woken, tokens).contains(t)
            <==> woken.contains(t) || tokens.contains(t),
        woken.len() <= marked_all(woken, tokens).len(),
        marked_all(woken, tokens).take(woken.len() as int) == woken,
    decreases tokens.len(),
{
    let all = marked_all(woken, tokens);
    if tokens.len() == 0 {
        assert(all.take(woken.len() as int) =~= woken);
    } else {
        let before = marked_all(woken, tokens.drop_last());
        lemma_marked_all(woken, tokens.drop_last());
        lemma_marked(before, tokens.last());
        assert(all.take(woken.len() as int) =~= before.take(woken.len() as int));
        assert forall|t: Token| #[trigger] all.contains(t)
            <==> woken.contains(t) || tokens.contains(t) by {
            assert(tokens =~= tokens.drop_last().push(tokens.last()));
            if tokens.contains(t) {
                let i = choose|i: int| 0 <= i < tokens.len() && tokens[i] == t;
                if i < tokens.len() - 1 {
                    assert(tokens.drop_last()[i] == t);
                }
            }
            if tokens.drop_last().contains(t) {
                let i = choose|i: int| 0 <= i < tokens.drop_last().len()
                    && tokens.drop_last()[i] == t;
                assert(tokens[i] == t);
            }
            assert(tokens[tokens.len() - 1] == tokens.last());
        }
    }
}

/// Marking one token adds it if it was not marked yet.
pub proof fn lemma_marked(woken: Seq<Token>, token: Token)
    requires
        woken.no_duplicates(),
    ensures
        marked(woken, token).no_duplicates(),
        forall|t: Token| #[trigger] marked(woken, token).contains(t)
            <==> woken.contains(t) || t == token,
        marked(marked(woken, token), token) == marked(woken, token),
{
    if !woken.contains(token) {
        let all = woken.push(token);
        assert(all[woken.len() as int] == token);
        assert forall|t: Token| #[trigger] all.contains(t) <==> woken.contains(t) || t == token by {
            if woken.contains(t) {
                let i = choose|i: int| 0 <= i < woken.len() && woken[i] == t;
                assert(all[i] == t);
            }
        }
    }
}

/// The tokens marked before stay in front, in their order. A token that is marked for the first
/// time comes last.
pub proof fn lemma_marked_last(woken: Seq<Token>, token: Token)
    ensures
        woken.is_prefix_of(marked(woken, token)),
        woken.contains(token) ==> marked(woken, token) == woken,
        !woken.contains(token) ==> marked(woken, token).len() == woken.len() + 1 && marked(
            woken,
            token,
        ).last() == token,
{
}

/// Tokens that are marked together come behind those marked before, in their order, without
/// those that are marked already.
pub proof fn lemma_marked_order(woken: Seq<Token>, tokens: Seq<Token>)
    requires
        woken.no_duplicates(),
        tokens.no_duplicates(),
    ensures
        marked_all(woken, tokens) == woken + tokens.filter(|t: Token| !woken.contains(t)),
    decreases tokens.len(),
{
    reveal(Seq::filter);
    let fresh = |t: Token| !woken.contains(t);
    if tokens.len() == 0 {
        assert(woken + tokens.filter(fresh) =~= woken);
    } else {
        let front = tokens.drop_last();
        let last = tokens.last();
        assert forall|t: Token| front.contains(t) implies t != last by {
            let i = choose|i: int| 0 <= i < front.len() && front[i] == t;
            assert(tokens[i] == t);
        }
        lemma_marked_order(woken, front);
        lemma_marked_all(woken, front);
        assert(woken + front.filter(fresh).push(last) =~= (woken + front.filter(fresh)).push(last));
    }
}

/// Marked tokens, each at most once, in the order of their first mark.
pub struct LocalNotify {
    flags: Vec<bool>,
    woken: Vec<Token>,
}

impl LocalNotify {
    /// The tokens marked since the last poll.
    pub closed spec fn woken(&self) -> Seq<Token> {
        self.woken@
    }

    /// How many tokens can be told apart: those with an index below this bound.
    pub closed spec fn bound(&self) -> nat {
        self.flags@.len()
    }

    /// A flag is up where its token is marked.
    pub closed spec fn wf(&self) -> bool {
        &&& self.woken@.no_duplicates()
        &&& forall|i: int| 0 <= i < self.woken@.len()
                ==> (#[trigger] self.woken@[i]).idx < self.flags@.len()
        &&& forall|k: int| 0 <= k < self.flags@.len()
                ==> (#[trigger] self.flags@[k] <==> self.woken@.contains(Token { idx: k as usize }))
    }

    pub fn with_capacity(capacity: usize) -> (notify: LocalNotify)
        ensures
            notify.wf(),
            notify.woken() == Seq::<Token>::empty(),
            notify.bound() == 0,
    {
        LocalNotify { flags: Vec::with_capacity(capacity), woken: Vec::with_capacity(capacity) }
    }

    /// Makes room for the token with index `idx`.
    pub fn ensure_capacity(&mut self, idx: usize)
        requires
            old(self).wf(),
        ensures
            final(self).wf(),
            final(self).woken() == old(self).woken(),
            final(self).bound() == (if old(self).bound() > idx { old(self).bound() } else { idx as nat + 1 }),
    {
        while self.flags.len() <= idx
            invariant
                self.wf(),
                self.woken() == old(self).woken(),
                self.bound() >= old(self).bound(),
                self.bound() > old(self).bound() ==> self.bound() <= idx + 1,
            decreases idx + 1 - self.flags.len(),
        {
            proof {
                let next = Token { idx: self.flags@.len() as usize };
                if self.woken@.contains(next) {
                    let i = choose|i: int| 0 <= i < self.woken@.len() && self.woken@[i] == next;
                    assert(self.woken@[i].idx < self.flags@.len());
                }
            }
            self.flags.push(false);
        }
    }

    /// Marks a token, unless it is marked already.
    pub fn mark(&mut self, token: Token)
        requires
            old(self).wf(),
            token.idx < old(self).bound(),
        ensures
            final(self).wf(),
            final(self).woken() == marked(old(self).woken(), token),
            final(self).bound() == old(self).bound(),
    {
        proof {
            lemma_marked(self.woken@, token);
            assert(token == Token { idx: token.idx });
            assert(self.flags@[token.idx as int] <==> self.woken@.contains(token));
        }
        if !self.flags[token.idx] {
            self.flags.set(token.idx, true);
            self.woken.push(token);
            proof {
                assert(self.woken@ == marked(old(self).woken@, token));
                assert(self.flags@.len() == self.flags.len());
                assert forall|k: int| 0 <= k < self.flags@.len() implies (#[trigger] self.flags@[k]
                    <==> self.woken@.contains(
                    Token { idx: k as usize },
                )) by {
                    let t = Token { idx: k as usize };
                    assert(marked(old(self).woken@, token).contains(t)
                        <==> old(self).woken@.contains(t) || t == token);
                    assert(old(self).flags@[k] <==> old(self).woken@.contains(t));
                }
            }
        }
    }

    /// Hands the marked tokens to `events`, in place of what it held.
    pub fn poll(&mut self, events: &mut Events)
        requires
            old(self).wf(),
        ensures
            final(self).wf(),
            final(self).woken() == Seq::<Token>::empty(),
            final(self).bound() == old(self).bound(),
            final(events).tokens@ == old(self).woken(),
    {
        events.tokens.clear();
        events.tokens.append(&mut self.woken);
        proof {
            assert(self.flags@.len() == self.flags.len());
            assert forall|k: int| 0 <= k < self.flags@.len()
                && #[trigger] self.flags@[k] implies exists|j: int|
                0 <= j < old(self).woken@.len() && (#[trigger] old(self).woken@[j]).idx == k by {
                let t = Token { idx: k as usize };
                assert(old(self).woken@.contains(t));
                let j = choose|j: int| 0 <= j < old(self).woken@.len() && old(self).woken@[j] == t;
                assert(old(self).woken@[j].idx == k);
            }
        }
        assert(events.tokens@ =~= old(self).woken());
        let mut i: usize = 0;
        while i < events.tokens.len()
            invariant
                i <= events.tokens@.len(),
                events.tokens@ == old(self).woken@,
                self.woken@ == Seq::<Token>::empty(),
                self.flags@.len() == old(self).flags@.len(),
                old(self).wf(),
                forall|k: int|
                    0 <= k < self.flags@.len() && #[trigger] self.flags@[k] ==> exists|j: int|
                        i <= j < events.tokens@.len() && (#[trigger] events.tokens@[j]).idx == k,
            decreases events.tokens@.len() - i,
        {
            let idx: usize = events.tokens[i].idx;
            assert(old(self).woken@[i as int].idx < old(self).flags@.len());
            self.flags.set(idx, false);
            i = i + 1;
        }
    }

    /// Whether a token is marked.
    pub fn has_notified(&self) -> (any: bool)
        ensures
            any == (self.woken().len() > 0),
    {
        self.woken.len() > 0
    }

    /// How many tokens are marked.
    pub fn notified_count(&self) -> (count: usize)
        ensures
            count == self.woken().len(),
    {
        self.woken.len()
    }
}

} // verus!
