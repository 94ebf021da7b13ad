//! The input snapshot of one frame and the key bindings that read it.

use vstd::prelude::*;

verus! {

/// Key codes of the default bindings. The host numbers its keys; the letters
/// carry their upper-case character codes.
pub const KEY_A: u32 = 65;

pub const KEY_D: u32 = 68;

pub const KEY_I: u32 = 73;

pub const KEY_J: u32 = 74;

pub const KEY_K: u32 = 75;

pub const KEY_L: u32 = 76;

pub const KEY_S: u32 = 83;

pub const KEY_W: u32 = 87;

/// The keys that are down in this frame, and those that went down in it.
#[derive(Debug)]
pub struct InputSnapshot {
    pub pressed: Vec<u32>,
    pub just_pressed: Vec<u32>,
}

/// The four keys that steer one rocket.
#[derive(Clone, Copy, Debug, PartialEq, Eq, Structural)]
pub struct RocketControls {
    pub rotate_left: u32,
    pub rotate_right: u32,
    pub accelerate: u32,
    pub spawn: u32,
}

/// What one player asks of their rocket in this frame.
#[derive(Clone, Copy, Debug, PartialEq, Eq, Structural)]
pub struct RocketInput {
    pub rotate_left: bool,
    pub rotate_right: bool,
    pub accelerate: bool,
    pub fire: bool,
}

impl InputSnapshot {
    /// The key is down.
    pub open spec fn holds(&self, key: u32) -> bool {
        self.pressed@.contains(key)
    }

    /// The key went down in this frame.
    pub open spec fn struck(&self, key: u32) -> bool {
        self.just_pressed@.contains(key)
    }

    /// A frame in which no key is down.
    pub fn new() -> (keys: InputSnapshot)
        ensures
            keys.pressed@.len() == 0,
            keys.just_pressed@.len() == 0,
            forall|key: u32| !keys.holds(key) && !keys.struck(key),
    {
        InputSnapshot { pressed: Vec::new(), just_pressed: Vec::new() }
    }

    /// Whether the key is down.
    pub fn pressed(&self, key: u32) -> (b: bool)
        ensures
            b == self.holds(key),
    {
        contains_key(&self.pressed, key)
    }

    /// Whether the key went down in this frame.
    pub fn just_pressed(&self, key: u32) -> (b: bool)
        ensures
            b == self.struck(key),
    {
        contains_key(&self.just_pressed, key)
    }
}

impl RocketControls {
    /// The key is one of the four.
    pub open spec fn binds(self, key: u32) -> bool {
        key == self.rotate_left || key == self.rotate_right || key == self.accelerate || key
            == self.spawn
    }

    /// Some key is bound by both players.
    pub open spec fn shares_key_with(self, other: RocketControls) -> bool {
        exists|key: u32| self.binds(key) && other.binds(key)
    }

    /// The snapshot as this player's bindings read it: steering and thrust
    /// follow the keys that are down, firing the key that went down.
    pub open spec fn resolved(self, keys: &InputSnapshot) -> RocketInput {
        RocketInput {
            rotate_left: keys.holds(self.rotate_left),
            rotate_right: keys.holds(self.rotate_right),
            accelerate: keys.holds(self.accelerate),
            fire: keys.struck(self.spawn),
        }
    }

    /// Whether the key is one of the four.
    pub fn is_bound(&self, key: u32) -> (b: bool)
        ensures
            b == self.binds(key),
    {
        key == self.rotate_left || key == self.rotate_right || key == self.accelerate || key
            == self.spawn
    }

    /// Whether the two players share a key. A match is set up only with
    /// bindings that do not overlap.
    pub fn overlaps(&self, other: &RocketControls) -> (b: bool)
        ensures
            b == self.shares_key_with(*other),
    {
        let b = other.is_bound(self.rotate_left) || other.is_bound(self.rotate_right)
            || other.is_bound(self.accelerate) || other.is_bound(self.spawn);
        proof {
            if other.binds(self.rotate_left) {
                assert(self.binds(self.rotate_left) && other.binds(self.rotate_left));
            } else if other.binds(self.rotate_right) {
                assert(self.binds(self.rotate_right) && other.binds(self.rotate_right));
            } else if other.binds(self.accelerate) {
                assert(self.binds(self.accelerate) && other.binds(self.accelerate));
            } else if other.binds(self.spawn) {
                assert(self.binds(self.spawn) && other.binds(self.spawn));
            }
        }
        b
    }

    /// Reads the snapshot through the bindings.
    pub fn resolve(&self, keys: &InputSnapshot) -> (input: RocketInput)
        ensures
            input == self.resolved(keys),
    {
        RocketInput {
            rotate_left: keys.pressed(self.rotate_left),
            rotate_right: keys.pressed(self.rotate_right),
            accelerate: keys.pressed(self.accelerate),
            fire: keys.just_pressed(self.spawn),
        }
    }
}

fn contains_key(keys: &Vec<u32>, key: u32) -> (b: bool)
    ensures
        b == keys@.contains(key),
{
    let mut i: usize = 0;
    while i < keys.len()
        invariant
            i <= keys@.len(),
            forall|j: int| 0 <= j < i ==> keys@[j] != key,
        decreases keys@.len() - i,
    {
        if keys[i] == key {
            return true;
        }
        i += 1;
    }
    false
}

} // verus!
