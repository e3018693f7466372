//! A placeholder map record. It stores a width and a height and exposes one
//! operation that is meant to one day populate map state; for now it changes
//! nothing, and nothing of the renderer reads it.

use vstd::prelude::*;

verus! {

/// Placeholder: a width and a height, and no further structure.
#[derive(Debug, Clone, Copy, PartialEq, Eq, Structural)]
pub struct MapStub {
    pub width: u64,
    pub height: u64,
}

impl MapStub {
    pub fn new(width: u64, height: u64) -> (m: MapStub)
        ensures
            m.width == width,
            m.height == height,
    {
        MapStub { width, height }
    }

    /// Placeholder for building map state: changes nothing.
    pub fn getmap(&mut self)
        ensures
            *final(self) == *old(self),
    {
    }
}

} // verus!
