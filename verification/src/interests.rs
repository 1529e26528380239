//! The subscribers of each data source, in a slab whose keys name the sources.
use crate::keys::{popped, slab_next};
use crate::notify::Token;
use slab::Slab;
use vstd::prelude::*;

verus! {

/// What the occupied slots hold, by their keys.
pub uninterp spec fn interest_lists(slab: Slab<Vec<Token>>) -> Map<usize, Seq<Token>>;

/// The keys of the vacated slots, the one vacated last in front.
pub uninterp spec fn interest_vacated(slab: Slab<Vec<Token>>) -> Seq<usize>;

/// `Slab::with_capacity`: an empty slab has no slot, occupied or vacated. It panics where the
/// slots, of four words each at most, would take more than `isize::MAX` bytes.
#[verifier::external_body]
pub(crate) fn interests_with_capacity(capacity: usize) -> (slab: Slab<Vec<Token>>)
    requires
        capacity <= isize::MAX / 32,
    ensures
        interest_lists(slab).dom() == Set::<usize>::empty(),
        interest_vacated(slab) == Seq::<usize>::empty(),
{
    Slab::with_capacity(capacity)
}

/// `Slab::insert`: puts the list into the slot vacated last, or else into a new one behind the
/// others, and returns its key. As with a push on a vector, that memory may run out is left out
/// of account.
#[verifier::external_body]
pub(crate) fn interests_insert(slab: &mut Slab<Vec<Token>>, list: Vec<Token>) -> (key: usize)
    ensures
        key as nat == slab_next(interest_lists(*old(slab)).dom(), interest_vacated(*old(slab))),
        interest_lists(*final(slab)) == interest_lists(*old(slab)).insert(key, list@),
        interest_vacated(*final(slab)) == popped(interest_vacated(*old(slab))),
{
    slab.insert(list)
}

/// `Slab::remove`: vacates an occupied slot and returns what it held. It panics on the key of
/// any other.
#[verifier::external_body]
pub(crate) fn interests_remove(slab: &mut Slab<Vec<Token>>, key: usize) -> (list: Vec<Token>)
    requires
        interest_lists(*old(slab)).dom().contains(key),
    ensures
        list@ == interest_lists(*old(slab))[key],
        interest_lists(*final(slab)) == interest_lists(*old(slab)).remove(key),
        interest_vacated(*final(slab)) == seq![key] + interest_vacated(*old(slab)),
{
    slab.remove(key)
}

/// `Slab::contains`: whether the key is that of an occupied slot.
#[verifier::external_body]
pub(crate) fn interests_contains(slab: &Slab<Vec<Token>>, key: usize) -> (found: bool)
    ensures
        found == interest_lists(*slab).dom().contains(key),
{
    slab.contains(key)
}

/// `Slab::get`: what the slot holds, where the key is that of an occupied one.
#[verifier::external_body]
pub(crate) fn interests_get(slab: &Slab<Vec<Token>>, key: usize) -> (list: Option<&Vec<Token>>)
    ensures
        list is Some <==> interest_lists(*slab).dom().contains(key),
        list is Some ==> list->0@ == interest_lists(*slab)[key],
{
    slab.get(key)
}

/// `Slab::get_mut`: what the slot holds, to be changed, where the key is that of an occupied
/// one. Nothing else changes.
#[verifier::external_body]
pub(crate) fn interests_get_mut(slab: &mut Slab<Vec<Token>>, key: usize) -> (list: Option<
    &mut Vec<Token>,
>)
    ensures
        list is Some <==> interest_lists(*old(slab)).dom().contains(key),
        list is Some ==> list->0@ == interest_lists(*old(slab))[key],
        list is Some ==> interest_lists(*final(slab)) == interest_lists(*old(slab)).insert(
            key,
            final(list->0)@,
        ),
        list is None ==> interest_lists(*final(slab)) == interest_lists(*old(slab)),
        interest_vacated(*final(slab)) == interest_vacated(*old(slab)),
{
    slab.get_mut(key)
}

/// `Slab::len`: the number of occupied slots.
#[verifier::external_body]
pub(crate) fn interests_len(slab: &Slab<Vec<Token>>) -> (len: usize)
    ensures
        len as nat == interest_lists(*slab).dom().len(),
{
    slab.len()
}

} // verus!
