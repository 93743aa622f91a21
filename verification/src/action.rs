//! The set of actions a player holds down, as one bit per action.

use vstd::prelude::*;

verus! {

/// The bit of each action.
pub const FORWARD: u32 = 0x1;

pub const BACKWARD: u32 = 0x2;

pub const LEFT: u32 = 0x4;

pub const RIGHT: u32 = 0x8;

pub const JUMP: u32 = 0x10;

pub const CROUCH: u32 = 0x20;

pub const WALK: u32 = 0x40;

pub const RUN: u32 = 0x80;

pub const USE: u32 = 0x100;

pub const LEFT_CLICK: u32 = 0x200;

pub const RIGHT_CLICK: u32 = 0x400;

pub const MIDDLE_MOUSE: u32 = 0x800;

/// A set of actions. Bits without a name are kept as they are.
#[derive(Clone, Copy, Debug, PartialEq, Eq, Structural, Hash)]
pub struct Action {
    bits: u32,
}

impl View for Action {
    type V = u32;

    /// The bit pattern of the set.
    closed spec fn view(&self) -> u32 {
        self.bits
    }
}

impl Action {
    /// Every bit of `other` is set in `self`.
    pub open spec fn has(self, other: Action) -> bool {
        self@ & other@ == other@
    }

    /// The set holding no action.
    pub fn empty() -> (a: Action)
        ensures
            a@ == 0,
    {
        Action { bits: 0 }
    }

    /// The set with exactly the bits of `bits`.
    pub fn from_bits_retain(bits: u32) -> (a: Action)
        ensures
            a@ == bits,
    {
        Action { bits }
    }

    /// The bit pattern of the set.
    pub fn bits(&self) -> (b: u32)
        ensures
            b == self@,
    {
        self.bits
    }

    /// Whether the set holds no action.
    pub fn is_empty(&self) -> (b: bool)
        ensures
            b == (self@ == 0),
    {
        self.bits == 0
    }

    /// Whether every action of `other` is in the set.
    pub fn contains(&self, other: Action) -> (b: bool)
        ensures
            b == self.has(other),
    {
        self.bits & other.bits == other.bits
    }

    /// Whether the set shares an action with `other`.
    pub fn intersects(&self, other: Action) -> (b: bool)
        ensures
            b == (self@ & other@ != 0),
    {
        self.bits & other.bits != 0
    }

    /// The actions of either set.
    pub fn union(self, other: Action) -> (a: Action)
        ensures
            a@ == self@ | other@,
    {
        Action { bits: self.bits | other.bits }
    }

    /// Adds the actions of `other`.
    pub fn insert(&mut self, other: Action)
        ensures
            final(self)@ == old(self)@ | other@,
    {
        self.bits = self.bits | other.bits;
    }

    /// Takes the actions of `other` out.
    pub fn remove(&mut self, other: Action)
        ensures
            final(self)@ == old(self)@ & !other@,
    {
        self.bits = self.bits & !other.bits;
    }

    /// Flips the actions of `other`.
    pub fn toggle(&mut self, other: Action)
        ensures
            final(self)@ == old(self)@ ^ other@,
    {
        self.bits = self.bits ^ other.bits;
    }

    /// Adds the actions of `other` where `value` holds, and takes them out otherwise.
    pub fn set(&mut self, other: Action, value: bool)
        ensures
            final(self)@ == if value {
                old(self)@ | other@
            } else {
                old(self)@ & !other@
            },
    {
        if value {
            self.insert(other);
        } else {
            self.remove(other);
        }
    }
}

/// Actions that were added are contained and actions that were taken out
/// are not; either way every other bit is as before.
pub proof fn lemma_added_and_removed(before: u32, other: u32)
    by (bit_vector)
    ensures
        (before | other) & other == other,
        other != 0 ==> (before & !other) & other != other,
        (before | other) & !other == before & !other,
        (before & !other) & !other == before & !other,
{
}

} // verus!
