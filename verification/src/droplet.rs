//! A single droplet slot's state.
//!
//! All world quantities are fixed-point integers in milli-units
//! (1000 = one world unit). `size` is a diameter-like scalar; the droplet's
//! radius is `size / 2`.

use vstd::prelude::*;

verus! {

/// Bound on droplet positions; integration clamps into this range.
pub const POS_LIMIT: i64 = 1_000_000_000_000_000;

/// Bound on droplet velocities; velocity updates clamp into this range.
pub const VEL_LIMIT: i64 = 1_000_000_000_000;

/// A two-dimensional vector in milli-units. Y increases upward.
#[derive(Clone, Copy, PartialEq, Eq, Structural, Debug)]
pub struct Vec2 {
    pub x: i64,
    pub y: i64,
}

impl Vec2 {
    pub fn new(x: i64, y: i64) -> (r: Vec2)
        ensures
            r.x == x,
            r.y == y,
    {
        Vec2 { x, y }
    }

    /// The zero vector.
    pub fn zero() -> (r: Vec2)
        ensures
            r.x == 0,
            r.y == 0,
    {
        Vec2 { x: 0, y: 0 }
    }
}

/// One droplet slot. While `deleted` is true the slot is free and its other
/// fields are stale values from the previous occupant; checkout deliberately
/// does not reset them.
#[derive(Clone, Copy, Debug)]
pub struct Droplet {
    /// World-space center in milli-units.
    pub pos: Vec2,
    /// Diameter-like scalar in milli-units; radius is `size / 2`.
    pub size: i64,
    /// Per-tick displacement; `pos.y` decreases by `speed.y` (falling).
    pub speed: Vec2,
    /// Countdown timer for the stochastic skip/slow cycle.
    pub seed: i32,
    /// Alternates with the normal accelerating mode on each seed recharge.
    pub skipping: bool,
    /// True when the slot is free (unused).
    pub deleted: bool,
    /// Dampening mode: velocity decays until it falls under gravity.
    pub slowing: bool,
    /// Y-coordinate of the last trail emission; `None` until the first.
    pub last_trail_y: Option<i64>,
}

impl Droplet {
    /// A fresh, live droplet of unit size at the origin.
    pub fn new() -> (d: Droplet)
        ensures
            d == Droplet::default_spec(),
    {
        Droplet {
            pos: Vec2 { x: 0, y: 0 },
            size: 1000,
            speed: Vec2 { x: 0, y: 0 },
            seed: 0,
            skipping: false,
            deleted: false,
            slowing: false,
            last_trail_y: None,
        }
    }

    /// Machine bounds every slot keeps, live or stale: a positive size up
    /// to the saturation limit, and clamped position and velocity.
    pub open spec fn bounded(self) -> bool {
        &&& 0 < self.size <= crate::math::SIZE_LIMIT
        &&& -POS_LIMIT <= self.pos.x <= POS_LIMIT
        &&& -POS_LIMIT <= self.pos.y <= POS_LIMIT
        &&& -VEL_LIMIT <= self.speed.x <= VEL_LIMIT
        &&& -VEL_LIMIT <= self.speed.y <= VEL_LIMIT
        &&& match self.last_trail_y {
            Some(v) => -POS_LIMIT <= v <= POS_LIMIT,
            None => true,
        }
    }

    /// The value produced by [`Droplet::new`].
    pub open spec fn default_spec() -> Droplet {
        Droplet {
            pos: Vec2 { x: 0, y: 0 },
            size: 1000,
            speed: Vec2 { x: 0, y: 0 },
            seed: 0,
            skipping: false,
            deleted: false,
            slowing: false,
            last_trail_y: None,
        }
    }
}

} // verus!
