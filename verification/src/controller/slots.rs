//! Slot tables of actors: where a new actor goes.
use vstd::prelude::*;

verus! {

/// Searching from slot `start + off` onwards, round the table once: the first free slot.
pub open spec fn search_free(occupied: Seq<bool>, start: int, off: int) -> Option<int>
    decreases occupied.len() - off,
{
    if off >= occupied.len() || off < 0 {
        None
    } else if !occupied[(start + off) % (occupied.len() as int)] {
        Some((start + off) % (occupied.len() as int))
    } else {
        search_free(occupied, start, off + 1)
    }
}

/// Finds a free spawn slot for a random roll: the search starts at the roll's remainder by the
/// number of slots and goes round once. Returns `None` when every slot is taken.
pub fn find_spawn_slot(occupied: &[bool], roll: u32) -> (r: Option<usize>)
    requires
        occupied@.len() > 0,
    ensures
        match r {
            Some(i) => search_free(occupied@, (roll as usize % occupied@.len() as usize) as int, 0) == Some(i as int),
            None => search_free(occupied@, (roll as usize % occupied@.len() as usize) as int, 0) is None,
        },
{
    let n = occupied.len();
    let start = roll as usize % n;
    let mut off: usize = 0;
    while off < n
        invariant
            n == occupied@.len(),
            start < n,
            start as int == (roll as usize % occupied@.len() as usize) as int,
            off <= n,
            search_free(occupied@, start as int, 0) == search_free(occupied@, start as int, off as int),
        decreases n - off,
    {
        let idx = if off < n - start { start + off } else { off - (n - start) };
        assert(idx as int == (start + off) as int % (n as int)) by {
            if off < n - start {
                vstd::arithmetic::div_mod::lemma_small_mod((start + off) as nat, n as nat);
            } else {
                vstd::arithmetic::div_mod::lemma_mod_add_multiples_vanish((start + off - n) as int, n as int);
                vstd::arithmetic::div_mod::lemma_small_mod((start + off - n) as nat, n as nat);
            }
        }
        if occupied[idx] {
            off = off + 1;
            continue;
        }
        assert(search_free(occupied@, start as int, off as int) == Some(idx as int));
        return Some(idx);
    }
    None
}

/// Puts `item` into the first empty slot, or into a new slot at the end when none is empty.
/// Returns the slot used.
pub fn place_in_first_free<T>(slots: &mut Vec<Option<T>>, item: T) -> (r: usize)
    requires
        old(slots)@.len() < usize::MAX,
    ensures
        r <= old(slots)@.len(),
        forall|k: int| 0 <= k < r ==> #[trigger] old(slots)@[k] is Some,
        r < old(slots)@.len() ==> old(slots)@[r as int] is None && final(slots)@ == old(slots)@.update(r as int, Some(item)),
        r == old(slots)@.len() ==> final(slots)@ == old(slots)@.push(Some(item)),
{
    let n = slots.len();
    let mut i: usize = 0;
    while i < n
        invariant
            n == slots@.len(),
            slots@ == old(slots)@,
            i <= n,
            forall|k: int| 0 <= k < i ==> #[trigger] old(slots)@[k] is Some,
        decreases n - i,
    {
        if slots[i].is_none() {
            slots[i] = Some(item);
            return i;
        }
        i = i + 1;
    }
    slots.push(Some(item));
    n
}

/// The first slot that can be taken again, if any.
pub fn first_free(free: &[bool]) -> (r: Option<usize>)
    ensures
        r matches Some(i) ==> i < free@.len() && free@[i as int] && forall|k: int| 0 <= k < i ==> !#[trigger] free@[k],
        r is None ==> forall|k: int| 0 <= k < free@.len() ==> !#[trigger] free@[k],
{
    let mut i: usize = 0;
    while i < free.len()
        invariant
            i <= free@.len(),
            forall|k: int| 0 <= k < i ==> !#[trigger] free@[k],
        decreases free@.len() - i,
    {
        if free[i] {
            return Some(i);
        }
        i = i + 1;
    }
    None
}

} // verus!
