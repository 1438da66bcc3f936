//! [`MapId`]: an identifier for a map, issued from a counter that starts at
//! 1 and only grows, so that no id is zero and none is issued twice.
//!
//! The id is held as a `usize` that is never zero (the role `NonZeroUsize`
//! plays for it).

use vstd::prelude::*;

verus! {

/// A map identifier; never zero.
#[derive(Clone, Copy, Debug, PartialEq, Eq, Structural, Hash)]
pub struct MapId {
    number: usize,
}

impl View for MapId {
    type V = usize;

    closed spec fn view(&self) -> usize {
        self.number
    }
}

impl MapId {
    #[verifier::type_invariant]
    spec fn nonzero(self) -> bool {
        self.number != 0
    }

    /// Wraps a nonzero number as a map id.
    pub fn from_non_zero_usize(number: usize) -> (r: MapId)
        requires
            number != 0,
        ensures
            r@ == number,
    {
        MapId { number }
    }

    /// Returns the underlying number, which is never zero.
    pub fn get_underlying_non_zero_usize(&self) -> (r: usize)
        ensures
            r == self@,
            r != 0,
    {
        proof {
            use_type_invariant(self);
        }
        self.number
    }

    /// The counter value that follows `raw` once an id has been issued from
    /// it; `None` when the counter would overflow.
    pub fn advance(raw: usize) -> (r: Option<usize>)
        ensures
            r == (if raw < usize::MAX { Some((raw + 1) as usize) } else { None::<usize> }),
    {
        raw.checked_add(1)
    }

    /// The id issued when the counter stood at `previous`; `None` only for
    /// zero, which a counter that starts at 1 and only grows never holds.
    pub fn issued_from(previous: usize) -> (r: Option<MapId>)
        ensures
            r is Some == (previous != 0),
            r matches Some(id) ==> id@ == previous,
    {
        if previous == 0 {
            None
        } else {
            Some(MapId { number: previous })
        }
    }
}

} // verus!
