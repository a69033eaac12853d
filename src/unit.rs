use vstd::prelude::*;

verus! {

/// Something that stands at a grid position and can be moved.
pub trait Move {
    /// Where it stands.
    spec fn location(&self) -> (i32, i32);

    /// Moves it to `to`.
    fn relocate(&mut self, to: (i32, i32))
        ensures
            final(self).location() == to,
    ;
}

/// Something that has hit points and can take damage.
pub trait Damage {
    /// Its hit points.
    spec fn hit_points(&self) -> int;

    /// Takes `damage` off its hit points; negative damage heals.
    fn take_damage(&mut self, damage: i32)
        requires
            i32::MIN <= old(self).hit_points() - damage <= i32::MAX,
        ensures
            final(self).hit_points() == old(self).hit_points() - damage,
    ;
}

/// A grid position.
pub struct Position {
    position: (i32, i32),
}

impl Position {
    pub fn new(arg: (i32, i32)) -> (r: Position)
        ensures
            r.location() == arg,
    {
        Position { position: arg }
    }

    /// Where it stands.
    pub fn get(&self) -> (r: (i32, i32))
        ensures
            r == self.location(),
    {
        self.position
    }
}

impl Move for Position {
    closed spec fn location(&self) -> (i32, i32) {
        self.position
    }

    fn relocate(&mut self, to: (i32, i32)) {
        self.position = to;
    }
}

/// A hit-point counter.
pub struct HitPoints {
    hit_points: i32,
}

impl HitPoints {
    pub fn new(hit_points: i32) -> (r: HitPoints)
        ensures
            r.hit_points() == hit_points,
    {
        HitPoints { hit_points }
    }

    /// The hit points left.
    pub fn get(&self) -> (r: i32)
        ensures
            r == self.hit_points(),
    {
        self.hit_points
    }
}

impl Damage for HitPoints {
    closed spec fn hit_points(&self) -> int {
        self.hit_points as int
    }

    fn take_damage(&mut self, damage: i32) {
        self.hit_points -= damage;
    }
}

/// A unit on the battlefield: a tank moves, a SAM site stays where it was built; both take
/// damage.
pub enum Unit<P: Move, H: Damage> {
    Tank(P, H),
    SamSite(P, H),
}

impl<P: Move, H: Damage> Unit<P, H> {
    /// The unit's hit points.
    pub open spec fn hit_points(&self) -> int {
        match self {
            Unit::Tank(_, h) => h.hit_points(),
            Unit::SamSite(_, h) => h.hit_points(),
        }
    }

    /// Moves a tank to `to`; a SAM site does not move.
    pub fn relocate(&mut self, to: (i32, i32))
        ensures
            match (*old(self), *final(self)) {
                (Unit::Tank(_, h0), Unit::Tank(p1, h1)) => p1.location() == to && h1 == h0,
                (Unit::SamSite(p0, h0), Unit::SamSite(p1, h1)) => p1 == p0 && h1 == h0,
                _ => false,
            },
    {
        match self {
            Unit::Tank(position, _) => position.relocate(to),
            Unit::SamSite(_, _) => {},
        }
    }

    /// Takes `damage` off the unit's hit points.
    pub fn take(&mut self, damage: i32)
        requires
            i32::MIN <= old(self).hit_points() - damage <= i32::MAX,
        ensures
            final(self).hit_points() == old(self).hit_points() - damage,
            match (*old(self), *final(self)) {
                (Unit::Tank(p0, _), Unit::Tank(p1, _)) => p1 == p0,
                (Unit::SamSite(p0, _), Unit::SamSite(p1, _)) => p1 == p0,
                _ => false,
            },
    {
        match self {
            Unit::Tank(_, hit_points) => hit_points.take_damage(damage),
            Unit::SamSite(_, hit_points) => hit_points.take_damage(damage),
        }
    }
}

} // verus!
