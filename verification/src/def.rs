//! Plain values shared by both directions of the protocol.

use crate::endian::u32_le_bytes;
use vstd::prelude::*;

verus! {

/// Number of player slots a server offers.
pub const MAX_PLAYERS: usize = 32;

/// Three single-precision components, each held as its IEEE-754 bit pattern.
///
/// The protocol only moves these values; it never computes with them. Holding
/// the bit patterns keeps every value, NaNs included, intact across the wire.
#[derive(Clone, Copy, Debug, PartialEq, Eq, Structural)]
pub struct Vector3 {
    pub x: u32,
    pub y: u32,
    pub z: u32,
}

/// The twelve bytes a vector occupies in a payload: x, y, z, each little-endian.
pub open spec fn vector_bytes(v: Vector3) -> Seq<u8> {
    u32_le_bytes(v.x) + u32_le_bytes(v.y) + u32_le_bytes(v.z)
}

impl Vector3 {
    /// The vector with the given component bit patterns.
    pub fn new(x: u32, y: u32, z: u32) -> (v: Vector3)
        ensures
            v == (Vector3 { x, y, z }),
    {
        Vector3 { x, y, z }
    }

    /// The vector whose components are all positive zero.
    pub fn zero() -> (v: Vector3)
        ensures
            v == (Vector3 { x: 0, y: 0, z: 0 }),
    {
        Vector3 { x: 0, y: 0, z: 0 }
    }

    /// The components in the order x, y, z.
    pub fn to_vec(&self) -> (v: Vec<u32>)
        ensures
            v@ == seq![self.x, self.y, self.z],
    {
        let mut v: Vec<u32> = Vec::with_capacity(3);
        v.push(self.x);
        v.push(self.y);
        v.push(self.z);
        assert(v@ =~= seq![self.x, self.y, self.z]);
        v
    }
}

} // verus!
