//! Placing stars: every star gets a place of the galaxy that no other star
//! has, until as many stars are placed as were asked for.

use crate::chance::roll_below;
use std::collections::HashSet;
use vstd::prelude::*;

verus! {

broadcast use vstd::std_specs::hash::group_hash_axioms;

/// The number under which the place `(x, y)` is kept.
pub open spec fn place_key(x: u32, y: u32) -> u64 {
    (x as u64 * 0x1_0000_0000 + y as u64) as u64
}

/// Different places have different keys.
pub proof fn lemma_place_keys_differ(x1: u32, y1: u32, x2: u32, y2: u32)
    ensures
        place_key(x1, y1) == place_key(x2, y2) <==> x1 == x2 && y1 == y2,
{
}

/// The places that stars were put on, and how many stars are wanted.
pub struct Placement {
    used: HashSet<u64>,
    placed: u32,
    wanted: u32,
}

impl Placement {
    /// The places in use.
    pub closed spec fn used(&self) -> Set<(u32, u32)> {
        Set::new(|place: (u32, u32)| self.used@.contains(place_key(place.0, place.1)))
    }

    /// The number of stars placed.
    pub closed spec fn placed(&self) -> u32 {
        self.placed
    }

    /// The number of stars wanted.
    pub closed spec fn wanted(&self) -> u32 {
        self.wanted
    }

    /// The record is sound: as many places are in use as stars are placed,
    /// and no more stars are placed than wanted.
    pub closed spec fn inv(&self) -> bool {
        &&& self.used@.finite()
        &&& self.used@.len() == self.placed
        &&& self.used().finite()
        &&& self.used().len() == self.placed
        &&& self.placed <= self.wanted
    }

    /// In a sound record the places in use are as many as the stars placed:
    /// every star has a place of its own.
    pub proof fn lemma_one_place_each(&self)
        requires
            self.inv(),
        ensures
            self.used().finite(),
            self.used().len() == self.placed(),
            self.placed() <= self.wanted(),
    {
    }

    /// Whether all the stars wanted are placed.
    pub open spec fn complete(&self) -> bool {
        self.placed() == self.wanted()
    }

    /// Nothing placed yet, `wanted` stars wanted.
    pub fn new(wanted: u32) -> (placement: Self)
        ensures
            placement.inv(),
            placement.used() == Set::<(u32, u32)>::empty(),
            placement.placed() == 0,
            placement.wanted() == wanted,
    {
        let placement = Placement { used: HashSet::new(), placed: 0, wanted };
        assert(placement.used() =~= Set::<(u32, u32)>::empty());
        placement
    }

    /// The number of stars placed.
    pub fn star_count(&self) -> (count: u32)
        ensures
            count == self.placed(),
    {
        self.placed
    }

    /// Whether all the stars wanted are placed.
    pub fn is_complete(&self) -> (complete: bool)
        requires
            self.inv(),
        ensures
            complete == self.complete(),
    {
        self.placed >= self.wanted
    }

    /// Whether the place `(x, y)` is in use.
    pub fn is_used(&self, x: u32, y: u32) -> (used: bool)
        ensures
            used == self.used().contains((x, y)),
    {
        let key = x as u64 * 0x1_0000_0000 + y as u64;
        self.used.contains(&key)
    }

    /// Puts a star on the place `(x, y)` if the place is free, and says
    /// whether it did.
    pub fn offer(&mut self, x: u32, y: u32) -> (fresh: bool)
        requires
            old(self).inv(),
            !old(self).complete(),
        ensures
            final(self).inv(),
            final(self).wanted() == old(self).wanted(),
            fresh == !old(self).used().contains((x, y)),
            final(self).used() == old(self).used().insert((x, y)),
            final(self).placed() == old(self).placed() + if fresh {
                1int
            } else {
                0int
            },
    {
        let key = x as u64 * 0x1_0000_0000 + y as u64;
        let fresh = self.used.insert(key);
        proof {
            vstd::set::axiom_set_insert_len(old(self).used@, key);
            vstd::set::axiom_set_insert_finite(old(self).used@, key);
        }
        if fresh {
            self.placed = self.placed + 1;
        }
        assert(self.used() =~= old(self).used().insert((x, y))) by {
            assert forall|place: (u32, u32)| self.used().contains(place) == old(self).used().insert((x, y)).contains(place) by {
                lemma_place_keys_differ(place.0, place.1, x, y);
            }
        }
        proof {
            vstd::set::axiom_set_insert_len(old(self).used(), (x, y));
            vstd::set::axiom_set_insert_finite(old(self).used(), (x, y));
        }
        fresh
    }

    /// Rolls a place of a galaxy with `dimension` places along each side
    /// and puts a star on it if it is free. A place that is in use is given
    /// up.
    pub fn random_place(&mut self, dimension: u32) -> (place: Option<(u32, u32)>)
        requires
            old(self).inv(),
            !old(self).complete(),
            dimension > 0,
        ensures
            final(self).inv(),
            final(self).wanted() == old(self).wanted(),
            match place {
                Some((x, y)) => {
                    &&& x < dimension
                    &&& y < dimension
                    &&& !old(self).used().contains((x, y))
                    &&& final(self).used() == old(self).used().insert((x, y))
                    &&& final(self).placed() == old(self).placed() + 1
                },
                None => {
                    &&& final(self).used() == old(self).used()
                    &&& final(self).placed() == old(self).placed()
                    &&& exists|x: u32, y: u32|
                        x < dimension && y < dimension && old(self).used().contains((x, y))
                },
            },
    {
        let x = roll_below(dimension);
        let y = roll_below(dimension);
        if self.offer(x, y) {
            Some((x, y))
        } else {
            assert(self.used() =~= old(self).used());
            None
        }
    }
}

} // verus!
