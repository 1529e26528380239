//! Keys that are handed out, taken back and handed out again.
use slab::Slab;
use vstd::prelude::*;

verus! {

/// `slab::Slab`. What is known of one is what the functions below claim.
#[verifier::external_type_specification]
#[verifier::external_body]
#[verifier::reject_recursive_types(T)]
pub struct ExSlab<T>(Slab<T>);

/// The keys of the occupied slots.
pub uninterp spec fn slab_live(slab: Slab<()>) -> Set<usize>;

/// The keys of the vacated slots, the one vacated last in front.
pub uninterp spec fn slab_vacated(slab: Slab<()>) -> Seq<usize>;

/// The key that the next insertion returns: that of the slot vacated last, or else the
/// first that was never used.
pub open spec fn slab_next(live: Set<usize>, vacated: Seq<usize>) -> nat {
    if vacated.len() > 0 {
        vacated[0] as nat
    } else {
        live.len()
    }
}

/// The vacated keys once the next one is handed out.
pub open spec fn popped(vacated: Seq<usize>) -> Seq<usize> {
    if vacated.len() > 0 {
        vacated.drop_first()
    } else {
        vacated
    }
}

/// The keys handed out so far are those below the number of both kinds, none is both in use and
/// vacated, and none is vacated twice.
pub open spec fn keys_wf(live: Set<usize>, vacated: Seq<usize>) -> bool {
    &&& live.finite()
    &&& forall|k: usize| #[trigger] live.contains(k) ==> k < live.len() + vacated.len()
    &&& forall|i: int| 0 <= i < vacated.len()
            ==> (#[trigger] vacated[i]) < live.len() + vacated.len()
    &&& forall|i: int| 0 <= i < vacated.len() ==> !live.contains(#[trigger] vacated[i])
    &&& vacated.no_duplicates()
}

/// The key handed out next is not in use.
pub proof fn lemma_handed_out(live: Set<usize>, vacated: Seq<usize>, key: usize)
    requires
        keys_wf(live, vacated),
        key as nat == slab_next(live, vacated),
    ensures
        !live.contains(key),
        keys_wf(live.insert(key), popped(vacated)),
{
}

/// A key that was taken back is the next to be handed out.
pub proof fn lemma_taken_back(live: Set<usize>, vacated: Seq<usize>, key: usize)
    requires
        keys_wf(live, vacated),
        live.contains(key),
    ensures
        keys_wf(live.remove(key), seq![key] + vacated),
        slab_next(live.remove(key), seq![key] + vacated) == key,
{
    let now = seq![key] + vacated;
    assert forall|i: int| 0 <= i < now.len() implies (#[trigger] now[i])
        < live.remove(key).len() + now.len()
        && !live.remove(key).contains(now[i]) by {
        if i > 0 {
            assert(now[i] == vacated[i - 1]);
        }
    }
    assert forall|i: int, j: int| 0 <= i < now.len()
        && 0 <= j < now.len()
        && i != j implies now[i] != now[j] by {
        if i > 0 {
            assert(now[i] == vacated[i - 1]);
        }
        if j > 0 {
            assert(now[j] == vacated[j - 1]);
        }
    }
}

/// `Slab::with_capacity`: an empty slab has no slot, occupied or vacated. It panics where the
/// slots, of two words each, would take more than `isize::MAX` bytes.
#[verifier::external_body]
fn slab_with_capacity(capacity: usize) -> (slab: Slab<()>)
    requires
        capacity <= isize::MAX / 16,
    ensures
        slab_live(slab) == Set::<usize>::empty(),
        slab_vacated(slab) == Seq::<usize>::empty(),
{
    Slab::with_capacity(capacity)
}

/// `Slab::insert`: occupies the slot vacated last, or else a new one behind the others, and
/// returns its key. As with a push on a vector, that memory may run out is left out of account.
#[verifier::external_body]
fn slab_insert(slab: &mut Slab<()>) -> (key: usize)
    ensures
        key as nat == slab_next(slab_live(*old(slab)), slab_vacated(*old(slab))),
        slab_live(*final(slab)) == slab_live(*old(slab)).insert(key),
        slab_vacated(*final(slab)) == popped(slab_vacated(*old(slab))),
{
    slab.insert(())
}

/// `Slab::vacant_key`: the key that the next insertion returns.
#[verifier::external_body]
fn slab_vacant_key(slab: &Slab<()>) -> (key: usize)
    ensures
        key as nat == slab_next(slab_live(*slab), slab_vacated(*slab)),
{
    slab.vacant_key()
}

/// `Slab::remove`: vacates an occupied slot. It panics on the key of any other.
#[verifier::external_body]
fn slab_remove(slab: &mut Slab<()>, key: usize)
    requires
        slab_live(*old(slab)).contains(key),
    ensures
        slab_live(*final(slab)) == slab_live(*old(slab)).remove(key),
        slab_vacated(*final(slab)) == seq![key] + slab_vacated(*old(slab)),
{
    slab.remove(key);
}

/// `Slab::contains`: whether the key is that of an occupied slot.
#[verifier::external_body]
fn slab_contains(slab: &Slab<()>, key: usize) -> (found: bool)
    ensures
        found == slab_live(*slab).contains(key),
{
    slab.contains(key)
}

/// `Slab::len`: the number of occupied slots.
#[verifier::external_body]
fn slab_len(slab: &Slab<()>) -> (len: usize)
    ensures
        len as nat == slab_live(*slab).len(),
{
    slab.len()
}

/// Keys in use, and keys to be used again.
pub struct KeySpace {
    slab: Slab<()>,
}

impl KeySpace {
    /// The keys in use.
    pub closed spec fn live(&self) -> Set<usize> {
        slab_live(self.slab)
    }

    /// The keys that were given back, the last one in front.
    pub closed spec fn vacated(&self) -> Seq<usize> {
        slab_vacated(self.slab)
    }

    /// All keys handed out so far lie below this bound.
    pub open spec fn bound(&self) -> nat {
        self.live().len() + self.vacated().len()
    }

    /// The key that is handed out next.
    pub open spec fn next(&self) -> nat {
        slab_next(self.live(), self.vacated())
    }

    /// The keys below the bound are in use or were given back, none both and none twice.
    pub open spec fn wf(&self) -> bool {
        keys_wf(self.live(), self.vacated())
    }

    pub fn with_capacity(capacity: usize) -> (keys: KeySpace)
        requires
            capacity <= isize::MAX / 16,
        ensures
            keys.wf(),
            keys.live() == Set::<usize>::empty(),
            keys.vacated() == Seq::<usize>::empty(),
    {
        KeySpace { slab: slab_with_capacity(capacity) }
    }

    /// Hands out a key.
    pub fn acquire(&mut self) -> (key: usize)
        requires
            old(self).wf(),
        ensures
            final(self).wf(),
            key as nat == old(self).next(),
            !old(self).live().contains(key),
            final(self).live() == old(self).live().insert(key),
            final(self).vacated() == popped(old(self).vacated()),
            final(self).bound() == (if key as nat == old(self).bound() {
                old(self).bound() + 1
            } else {
                old(self).bound()
            }),
            key as nat <= old(self).bound(),
    {
        let key: usize = slab_insert(&mut self.slab);
        proof {
            lemma_handed_out(old(self).live(), old(self).vacated(), key);
        }
        key
    }

    /// The key that is handed out next.
    pub fn next_key(&self) -> (key: usize)
        ensures
            key as nat == self.next(),
    {
        slab_vacant_key(&self.slab)
    }

    /// Takes a key back.
    pub fn release(&mut self, key: usize)
        requires
            old(self).wf(),
            old(self).live().contains(key),
        ensures
            final(self).wf(),
            final(self).live() == old(self).live().remove(key),
            final(self).vacated() == seq![key] + old(self).vacated(),
            final(self).bound() == old(self).bound(),
    {
        slab_remove(&mut self.slab, key);
        proof {
            lemma_taken_back(old(self).live(), old(self).vacated(), key);
        }
    }

    /// Whether a key is in use.
    pub fn is_live(&self, key: usize) -> (live: bool)
        ensures
            live == self.live().contains(key),
    {
        slab_contains(&self.slab, key)
    }

    /// How many keys are in use.
    pub fn count(&self) -> (count: usize)
        ensures
            count as nat == self.live().len(),
    {
        slab_len(&self.slab)
    }
}

} // verus!
