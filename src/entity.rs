use crate::geometry::{abs, in_world, Vec2, DIR_SCALE};
use vstd::prelude::*;

verus! {

/// A component-wise bound on a direction or an intent: each component is at
/// most `DIR_SCALE` in absolute value.
pub open spec fn dir_bounded(v: Vec2) -> bool {
    abs(v.x as int) <= DIR_SCALE && abs(v.y as int) <= DIR_SCALE
}

/// A bullet: its center and the direction it was fired in.
#[derive(Clone, Copy, Debug, PartialEq, Eq, Structural)]
pub struct Bullet {
    pub pos: Vec2,
    pub dir: Vec2,
}

/// An enemy: its center and the direction of its last move.
#[derive(Clone, Copy, Debug, PartialEq, Eq, Structural)]
pub struct Enemy {
    pub pos: Vec2,
    pub dir: Vec2,
}

impl Bullet {
    pub open spec fn inv(self) -> bool {
        in_world(self.pos) && dir_bounded(self.dir)
    }
}

impl Enemy {
    pub open spec fn inv(self) -> bool {
        in_world(self.pos) && dir_bounded(self.dir)
    }
}

pub open spec fn bullets_inv(s: Seq<Bullet>) -> bool {
    forall|i: int| 0 <= i < s.len() ==> #[trigger] s[i].inv()
}

pub open spec fn enemies_inv(s: Seq<Enemy>) -> bool {
    forall|i: int| 0 <= i < s.len() ==> #[trigger] s[i].inv()
}

} // verus!
