//! Buffers of inputs that a chain works off in one go.
use crate::node::ChainCall;
use crate::world::World;
use vstd::prelude::*;

verus! {

/// A chain may be handed `items` one after the other.
pub open spec fn batch_pre<R, In, F: ChainCall<R, In>>(
    chain: F,
    world: World<R>,
    items: Seq<In>,
) -> bool
    decreases items.len(),
{
    items.len() > 0 ==> {
        &&& chain.call_pre(world, items[0])
        &&& forall|chain_mid: F, world_mid: World<R>, out: F::Out|
            #[trigger] chain.call_post(world, items[0], chain_mid, world_mid, out)
                ==> batch_pre(chain_mid, world_mid, items.drop_first())
    }
}

/// What handing `items` over, one after the other, may lead to.
pub open spec fn batch_post<R, In, F: ChainCall<R, In>>(
    chain: F,
    world: World<R>,
    items: Seq<In>,
    after: F,
    world_after: World<R>,
) -> bool
    decreases items.len(),
{
    if items.len() == 0 {
        after == chain && world_after == world
    } else {
        exists|chain_mid: F, world_mid: World<R>, out: F::Out|
            #[trigger] chain.call_post(world, items[0], chain_mid, world_mid, out)
                && batch_post(chain_mid, world_mid, items.drop_first(), after, world_after)
    }
}

/// Batches compose: handing over `items` and then `more` is handing over both at once.
pub proof fn lemma_batch_append<R, In, F: ChainCall<R, In>>(
    chain: F,
    world: World<R>,
    items: Seq<In>,
    chain_mid: F,
    world_mid: World<R>,
    more: Seq<In>,
    after: F,
    world_after: World<R>,
)
    requires
        batch_post(chain, world, items, chain_mid, world_mid),
        batch_post(chain_mid, world_mid, more, after, world_after),
    ensures
        batch_post(chain, world, items + more, after, world_after),
    decreases items.len(),
{
    if items.len() == 0 {
        assert(items + more =~= more);
    } else {
        let (c, w, o) = choose|c: F, w: World<R>, o: F::Out|
            #[trigger] chain.call_post(world, items[0], c, w, o)
                && batch_post(c, w, items.drop_first(), chain_mid, world_mid);
        lemma_batch_append(
            c,
            w,
            items.drop_first(),
            chain_mid,
            world_mid,
            more,
            after,
            world_after,
        );
        assert((items + more).drop_first() =~= items.drop_first() + more);
        assert(chain.call_post(world, (items + more)[0], c, w, o));
    }
}

/// Every input is handed over, in its turn, whatever came out for those before it.
pub proof fn lemma_batch_each<R, In, F: ChainCall<R, In>>(
    chain: F,
    world: World<R>,
    items: Seq<In>,
    after: F,
    world_after: World<R>,
    k: int,
)
    requires
        batch_post(chain, world, items, after, world_after),
        0 <= k < items.len(),
    ensures
        exists|chain_mid: F, world_mid: World<R>, chain_next: F, world_next: World<R>, out: F::Out|
            batch_post(chain, world, items.take(k), chain_mid, world_mid)
                && #[trigger] chain_mid.call_post(world_mid, items[k], chain_next, world_next, out)
                && batch_post(chain_next, world_next, items.skip(k + 1), after, world_after),
    decreases k,
{
    let (c, w, o) = choose|c: F, w: World<R>, o: F::Out|
        #[trigger] chain.call_post(world, items[0], c, w, o)
            && batch_post(c, w, items.drop_first(), after, world_after);
    let rest = items.drop_first();
    if k == 0 {
        assert(items.take(0) =~= Seq::<In>::empty());
        assert(items.skip(1) =~= rest);
        assert(batch_post(chain, world, items.take(0), chain, world));
        assert(chain.call_post(world, items[k], c, w, o));
    } else {
        lemma_batch_each(c, w, rest, after, world_after, k - 1);
        let (chain_mid, world_mid, chain_next, world_next, out) = choose|
            chain_mid: F,
            world_mid: World<R>,
            chain_next: F,
            world_next: World<R>,
            out: F::Out,
        |
            batch_post(c, w, rest.take(k - 1), chain_mid, world_mid)
                && #[trigger] chain_mid.call_post(
                    world_mid,
                    rest[k - 1],
                    chain_next,
                    world_next,
                    out,
                )
                && batch_post(chain_next, world_next, rest.skip(k), after, world_after);
        assert(rest[k - 1] == items[k]);
        assert(rest.skip(k) =~= items.skip(k + 1));
        assert(items.take(k).drop_first() =~= rest.take(k - 1));
        assert(chain.call_post(world, items.take(k)[0], c, w, o));
        assert(batch_post(chain, world, items.take(k), chain_mid, world_mid));
        assert(chain_mid.call_post(world_mid, items[k], chain_next, world_next, out));
    }
}

/// A batch without inputs changes nothing, and a batch of one input is one call.
pub proof fn lemma_batch_small<R, In, F: ChainCall<R, In>>(
    chain: F,
    world: World<R>,
    item: In,
    after: F,
    world_after: World<R>,
)
    ensures
        batch_post(chain, world, Seq::<In>::empty(), after, world_after) <==> after == chain
            && world_after == world,
        batch_post(chain, world, seq![item], after, world_after) <==> exists|out: F::Out|
            #[trigger] chain.call_post(world, item, after, world_after, out),
{
    let one = seq![item];
    assert(one.drop_first() =~= Seq::<In>::empty());
    assert(one[0] == item);
    if batch_post(chain, world, one, after, world_after) {
        let (c, w, o) = choose|c: F, w: World<R>, o: F::Out|
            #[trigger] chain.call_post(world, one[0], c, w, o)
                && batch_post(c, w, one.drop_first(), after, world_after);
        assert(chain.call_post(world, item, after, world_after, o));
    }
    if exists|out: F::Out| #[trigger] chain.call_post(world, item, after, world_after, out) {
        let o = choose|out: F::Out| #[trigger] chain.call_post(world, item, after, world_after, out);
        assert(chain.call_post(world, one[0], after, world_after, o));
        assert(batch_post(after, world_after, one.drop_first(), after, world_after));
    }
}

/// A chain that may always be called may be handed any batch.
pub proof fn lemma_batch_ready<R, In, F: ChainCall<R, In>>(
    chain: F,
    world: World<R>,
    items: Seq<In>,
)
    requires
        forall|c: F, w: World<R>, item: In| #[trigger] c.call_pre(w, item),
    ensures
        batch_pre(chain, world, items),
    decreases items.len(),
{
    if items.len() > 0 {
        assert forall|c: F, w: World<R>, out: F::Out|
            #[trigger] chain.call_post(world, items[0], c, w, out) implies batch_pre(
            c,
            w,
            items.drop_first(),
        ) by {
            lemma_batch_ready(c, w, items.drop_first());
        }
    }
}

fn reverse<T>(v: &mut Vec<T>)
    ensures
        final(v)@ == old(v)@.reverse(),
{
    let n: usize = v.len();
    let mut i: usize = 0;
    while i < n / 2
        invariant
            n == v.len(),
            n == old(v).len(),
            i <= n / 2,
            forall|k: int| 0 <= k < i ==> v@[k] == old(v)@[n - 1 - k],
            forall|k: int| n - i <= k < n ==> v@[k] == old(v)@[n - 1 - k],
            forall|k: int| i <= k < n - i ==> v@[k] == old(v)@[k],
        decreases n - i,
    {
        let (front, back) = v.as_mut_slice().split_at_mut(n - 1 - i);
        std::mem::swap(&mut front[i], &mut back[0]);
        i = i + 1;
    }
    assert(v@ =~= old(v)@.reverse());
}

/// Hands the buffered inputs to the chain, in the order of the buffer, and empties the buffer.
pub(crate) fn run_batch<R, In, F: ChainCall<R, In>>(
    chain: &mut F,
    input: &mut Vec<In>,
    world: &mut World<R>,
)
    requires
        batch_pre(*old(chain), *old(world), old(input)@),
    ensures
        final(input)@ == Seq::<In>::empty(),
        batch_post(*old(chain), *old(world), old(input)@, *final(chain), *final(world)),
{
    let ghost items = input@;
    reverse(input);
    let ghost mut done: int = 0;
    assert(items.skip(0) =~= items);
    assert(items.take(0) =~= Seq::<In>::empty());
    while input.len() > 0
        invariant
            0 <= done <= items.len(),
            input@ == items.skip(done).reverse(),
            batch_pre(*chain, *world, items.skip(done)),
            batch_post(*old(chain), *old(world), items.take(done), *chain, *world),
        decreases input.len(),
    {
        let ghost chain_mid = *chain;
        let ghost world_mid = *world;
        let ghost rest = items.skip(done);
        let item = input.pop().unwrap();
        assert(item == rest[0]);
        let out = chain.call(world, item);
        assert(chain_mid.call_post(world_mid, rest[0], *chain, *world, out));
        proof {
            assert(rest.drop_first() =~= items.skip(done + 1));
            assert(input@ =~= items.skip(done + 1).reverse());
            let one = seq![rest[0]];
            assert(one.drop_first() =~= Seq::<In>::empty());
            assert(batch_post(*chain, *world, one.drop_first(), *chain, *world));
            assert(chain_mid.call_post(world_mid, one[0], *chain, *world, out));
            assert(batch_post(chain_mid, world_mid, one, *chain, *world));
            lemma_batch_append(
                *old(chain),
                *old(world),
                items.take(done),
                chain_mid,
                world_mid,
                one,
                *chain,
                *world,
            );
            assert(items.take(done) + one =~= items.take(done + 1));
            done = done + 1;
        }
    }
    assert(items.take(done) =~= items);
    assert(input@ =~= Seq::<In>::empty());
}

} // verus!
