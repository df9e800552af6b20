//! Axial coordinates on a pointy-top hexagonal grid, and their algebra:
//! component-wise addition and subtraction, the six compass directions with
//! their unit offsets, neighbors, cube distance, and the direction between
//! adjacent coordinates.

use vstd::prelude::*;

verus! {

/// An axial coordinate `(q, r)`. The derived cube coordinate is
/// `s = -q - r`, so `q + r + s == 0` holds for every value by construction.
#[derive(Debug, Clone, Copy, PartialEq, Eq, Hash, Structural)]
pub struct HexCoord {
    pub q: i32,
    pub r: i32,
}

/// One of the six hexagonal compass directions, in canonical order
/// East, NorthEast, NorthWest, West, SouthWest, SouthEast.
#[derive(Debug, Clone, Copy, PartialEq, Eq, Hash, Structural)]
pub enum HexDirection {
    East,
    NorthEast,
    NorthWest,
    West,
    SouthWest,
    SouthEast,
}

/// The `q` component of a direction's unit offset.
pub open spec fn offset_q(d: HexDirection) -> int {
    match d {
        HexDirection::East => 1,
        HexDirection::NorthEast => 1,
        HexDirection::NorthWest => 0,
        HexDirection::West => -1,
        HexDirection::SouthWest => -1,
        HexDirection::SouthEast => 0,
    }
}

/// The `r` component of a direction's unit offset.
pub open spec fn offset_r(d: HexDirection) -> int {
    match d {
        HexDirection::East => 0,
        HexDirection::NorthEast => -1,
        HexDirection::NorthWest => -1,
        HexDirection::West => 0,
        HexDirection::SouthWest => 1,
        HexDirection::SouthEast => 1,
    }
}

/// The direction at a given position in the canonical order
/// East, NorthEast, NorthWest, West, SouthWest, SouthEast.
pub open spec fn direction_of_index(i: int) -> HexDirection {
    if i == 0 {
        HexDirection::East
    } else if i == 1 {
        HexDirection::NorthEast
    } else if i == 2 {
        HexDirection::NorthWest
    } else if i == 3 {
        HexDirection::West
    } else if i == 4 {
        HexDirection::SouthWest
    } else {
        HexDirection::SouthEast
    }
}

/// Rotation by one 60-degree step counterclockwise.
pub open spec fn spec_rotate_left(d: HexDirection) -> HexDirection {
    match d {
        HexDirection::East => HexDirection::NorthEast,
        HexDirection::NorthEast => HexDirection::NorthWest,
        HexDirection::NorthWest => HexDirection::West,
        HexDirection::West => HexDirection::SouthWest,
        HexDirection::SouthWest => HexDirection::SouthEast,
        HexDirection::SouthEast => HexDirection::East,
    }
}

/// Rotation by one 60-degree step clockwise.
pub open spec fn spec_rotate_right(d: HexDirection) -> HexDirection {
    match d {
        HexDirection::East => HexDirection::SouthEast,
        HexDirection::SouthEast => HexDirection::SouthWest,
        HexDirection::SouthWest => HexDirection::West,
        HexDirection::West => HexDirection::NorthWest,
        HexDirection::NorthWest => HexDirection::NorthEast,
        HexDirection::NorthEast => HexDirection::East,
    }
}

/// The opposite direction: three 60-degree steps away.
pub open spec fn spec_opposite(d: HexDirection) -> HexDirection {
    match d {
        HexDirection::East => HexDirection::West,
        HexDirection::NorthEast => HexDirection::SouthWest,
        HexDirection::NorthWest => HexDirection::SouthEast,
        HexDirection::West => HexDirection::East,
        HexDirection::SouthWest => HexDirection::NorthEast,
        HexDirection::SouthEast => HexDirection::NorthWest,
    }
}

/// Absolute value of a mathematical integer.
pub open spec fn abs_val(x: int) -> int {
    if x < 0 {
        -x
    } else {
        x
    }
}

/// Cube distance between two axial coordinates:
/// `(|dq| + |dr| + |ds|) / 2` with `ds = -dq - dr`.
pub open spec fn spec_distance(a: HexCoord, b: HexCoord) -> int {
    (abs_val(a.q - b.q) + abs_val(a.r - b.r) + abs_val((a.q - b.q) + (a.r - b.r))) / 2
}

/// The direction whose unit offset carries `a` to `b`, if `b` is one of the
/// six neighbors of `a`; `None` for every other pair, including `a` itself.
pub open spec fn spec_direction_to(a: HexCoord, b: HexCoord) -> Option<HexDirection> {
    let dq = b.q - a.q;
    let dr = b.r - a.r;
    if dq == 1 && dr == 0 {
        Some(HexDirection::East)
    } else if dq == 1 && dr == -1 {
        Some(HexDirection::NorthEast)
    } else if dq == 0 && dr == -1 {
        Some(HexDirection::NorthWest)
    } else if dq == -1 && dr == 0 {
        Some(HexDirection::West)
    } else if dq == -1 && dr == 1 {
        Some(HexDirection::SouthWest)
    } else if dq == 0 && dr == 1 {
        Some(HexDirection::SouthEast)
    } else {
        None
    }
}

impl HexDirection {
    /// The unit axial offset of this direction.
    pub fn offset(self) -> (c: HexCoord)
        ensures
            c.q == offset_q(self),
            c.r == offset_r(self),
    {
        match self {
            HexDirection::East => HexCoord { q: 1, r: 0 },
            HexDirection::NorthEast => HexCoord { q: 1, r: -1 },
            HexDirection::NorthWest => HexCoord { q: 0, r: -1 },
            HexDirection::West => HexCoord { q: -1, r: 0 },
            HexDirection::SouthWest => HexCoord { q: -1, r: 1 },
            HexDirection::SouthEast => HexCoord { q: 0, r: 1 },
        }
    }

    /// One 60-degree step counterclockwise.
    pub fn rotate_left(self) -> (d: HexDirection)
        ensures
            d == spec_rotate_left(self),
    {
        match self {
            HexDirection::East => HexDirection::NorthEast,
            HexDirection::NorthEast => HexDirection::NorthWest,
            HexDirection::NorthWest => HexDirection::West,
            HexDirection::West => HexDirection::SouthWest,
            HexDirection::SouthWest => HexDirection::SouthEast,
            HexDirection::SouthEast => HexDirection::East,
        }
    }

    /// One 60-degree step clockwise.
    pub fn rotate_right(self) -> (d: HexDirection)
        ensures
            d == spec_rotate_right(self),
    {
        match self {
            HexDirection::East => HexDirection::SouthEast,
            HexDirection::SouthEast => HexDirection::SouthWest,
            HexDirection::SouthWest => HexDirection::West,
            HexDirection::West => HexDirection::NorthWest,
            HexDirection::NorthWest => HexDirection::NorthEast,
            HexDirection::NorthEast => HexDirection::East,
        }
    }

    /// The opposite direction.
    pub fn opposite(self) -> (d: HexDirection)
        ensures
            d == spec_opposite(self),
    {
        match self {
            HexDirection::East => HexDirection::West,
            HexDirection::NorthEast => HexDirection::SouthWest,
            HexDirection::NorthWest => HexDirection::SouthEast,
            HexDirection::West => HexDirection::East,
            HexDirection::SouthWest => HexDirection::NorthEast,
            HexDirection::SouthEast => HexDirection::NorthWest,
        }
    }

    /// The six directions in canonical order.
    pub fn all() -> (v: Vec<HexDirection>)
        ensures
            v@.len() == 6,
            forall|i: int| 0 <= i < 6 ==> #[trigger] v@[i] == direction_of_index(i),
    {
        let mut v: Vec<HexDirection> = Vec::new();
        v.push(HexDirection::East);
        v.push(HexDirection::NorthEast);
        v.push(HexDirection::NorthWest);
        v.push(HexDirection::West);
        v.push(HexDirection::SouthWest);
        v.push(HexDirection::SouthEast);
        v
    }
}

impl HexCoord {
    /// Builds the coordinate `(q, r)`. Every axial pair is valid.
    pub fn new(q: i32, r: i32) -> (c: HexCoord)
        ensures
            c.q == q,
            c.r == r,
    {
        HexCoord { q, r }
    }

    /// The derived cube coordinate `s = -q - r`.
    pub open spec fn s(self) -> int {
        -self.q - self.r
    }

    /// Component-wise sum.
    pub fn add(self, other: HexCoord) -> (c: HexCoord)
        requires
            i32::MIN <= self.q + other.q <= i32::MAX,
            i32::MIN <= self.r + other.r <= i32::MAX,
        ensures
            c.q == self.q + other.q,
            c.r == self.r + other.r,
    {
        HexCoord { q: self.q + other.q, r: self.r + other.r }
    }

    /// Component-wise difference.
    pub fn sub(self, other: HexCoord) -> (c: HexCoord)
        requires
            i32::MIN <= self.q - other.q <= i32::MAX,
            i32::MIN <= self.r - other.r <= i32::MAX,
        ensures
            c.q == self.q - other.q,
            c.r == self.r - other.r,
    {
        HexCoord { q: self.q - other.q, r: self.r - other.r }
    }

    /// The adjacent coordinate one step in direction `d`.
    pub fn neighbor(self, d: HexDirection) -> (c: HexCoord)
        requires
            i32::MIN <= self.q + offset_q(d) <= i32::MAX,
            i32::MIN <= self.r + offset_r(d) <= i32::MAX,
        ensures
            c.q == self.q + offset_q(d),
            c.r == self.r + offset_r(d),
    {
        let o = d.offset();
        HexCoord { q: self.q + o.q, r: self.r + o.r }
    }

    /// All six adjacent coordinates, in the canonical direction order.
    pub fn neighbors(self) -> (v: Vec<HexCoord>)
        requires
            i32::MIN + 1 <= self.q <= i32::MAX - 1,
            i32::MIN + 1 <= self.r <= i32::MAX - 1,
        ensures
            v@.len() == 6,
            forall|i: int| 0 <= i < 6 ==> (#[trigger] v@[i]).q == self.q + offset_q(
                direction_of_index(i),
            ) && v@[i].r == self.r + offset_r(direction_of_index(i)),
    {
        let mut v: Vec<HexCoord> = Vec::new();
        v.push(self.neighbor(HexDirection::East));
        v.push(self.neighbor(HexDirection::NorthEast));
        v.push(self.neighbor(HexDirection::NorthWest));
        v.push(self.neighbor(HexDirection::West));
        v.push(self.neighbor(HexDirection::SouthWest));
        v.push(self.neighbor(HexDirection::SouthEast));
        v
    }

    /// Cube distance to `other`.
    pub fn distance(self, other: HexCoord) -> (d: i32)
        requires
            spec_distance(self, other) <= i32::MAX,
        ensures
            d == spec_distance(self, other),
    {
        let dq: i64 = self.q as i64 - other.q as i64;
        let dr: i64 = self.r as i64 - other.r as i64;
        let ds: i64 = dq + dr;
        let aq: i64 = if dq < 0 {
            -dq
        } else {
            dq
        };
        let ar: i64 = if dr < 0 {
            -dr
        } else {
            dr
        };
        let az: i64 = if ds < 0 {
            -ds
        } else {
            ds
        };
        let total: u64 = (aq + ar + az) as u64;
        (total / 2) as i32
    }

    /// The direction from `self` to `other`, if they are adjacent.
    pub fn direction_to(self, other: HexCoord) -> (d: Option<HexDirection>)
        ensures
            d == spec_direction_to(self, other),
    {
        let dq: i64 = other.q as i64 - self.q as i64;
        let dr: i64 = other.r as i64 - self.r as i64;
        if dq == 1 && dr == 0 {
            Some(HexDirection::East)
        } else if dq == 1 && dr == -1 {
            Some(HexDirection::NorthEast)
        } else if dq == 0 && dr == -1 {
            Some(HexDirection::NorthWest)
        } else if dq == -1 && dr == 0 {
            Some(HexDirection::West)
        } else if dq == -1 && dr == 1 {
            Some(HexDirection::SouthWest)
        } else if dq == 0 && dr == 1 {
            Some(HexDirection::SouthEast)
        } else {
            None
        }
    }

    /// Builds a coordinate from cube components, which succeeds exactly when
    /// they satisfy the cube invariant `q + r + s == 0`.
    pub fn from_cube(q: i32, r: i32, s: i32) -> (c: Option<HexCoord>)
        ensures
            c is Some <==> q + r + s == 0,
            c matches Some(h) ==> h.q == q && h.r == r && h.s() == s,
    {
        let sum: i64 = q as i64 + r as i64 + s as i64;
        if sum == 0 {
            Some(HexCoord { q, r })
        } else {
            None
        }
    }
}

/// Distance is symmetric, and the distance from a coordinate to itself is
/// zero.
pub proof fn lemma_distance_symmetry(a: HexCoord, b: HexCoord)
    ensures
        spec_distance(a, b) == spec_distance(b, a),
        spec_distance(a, a) == 0,
{
}

/// Distance is non-negative, and is zero exactly between equal coordinates.
pub proof fn lemma_distance_zero(a: HexCoord, b: HexCoord)
    ensures
        spec_distance(a, b) >= 0,
        spec_distance(a, b) == 0 <==> a == b,
{
}

/// Distance satisfies the triangle inequality.
pub proof fn lemma_distance_triangle(a: HexCoord, b: HexCoord, c: HexCoord)
    ensures
        spec_distance(a, c) <= spec_distance(a, b) + spec_distance(b, c),
{
}

/// The opposite direction carries the negated unit offset, so stepping in
/// direction `d` and then in `d`'s opposite returns to the start.
pub proof fn lemma_neighbor_round_trip(c: HexCoord, d: HexDirection)
    ensures
        offset_q(spec_opposite(d)) == -offset_q(d),
        offset_r(spec_opposite(d)) == -offset_r(d),
        c.q + offset_q(d) + offset_q(spec_opposite(d)) == c.q,
        c.r + offset_r(d) + offset_r(spec_opposite(d)) == c.r,
{
}

/// `direction_to` recognizes exactly the six unit offsets: it returns
/// `Some(d)` precisely when `b - a` is the offset of `d`. In particular it
/// returns `Some(d)` for the neighbor of `a` in direction `d`, and `None`
/// for `a` itself and for any non-adjacent coordinate.
pub proof fn lemma_direction_to_characterization(a: HexCoord, b: HexCoord, d: HexDirection)
    ensures
        spec_direction_to(a, b) == Some(d) <==> (b.q - a.q == offset_q(d) && b.r - a.r == offset_r(
            d,
        )),
        spec_direction_to(a, a) == None::<HexDirection>,
{
}

/// The direction to the neighbor in direction `d` is `Some(d)`.
pub proof fn lemma_direction_to_neighbor(c: HexCoord, d: HexDirection)
    requires
        i32::MIN <= c.q + offset_q(d) <= i32::MAX,
        i32::MIN <= c.r + offset_r(d) <= i32::MAX,
    ensures
        spec_direction_to(
            c,
            (HexCoord { q: (c.q + offset_q(d)) as i32, r: (c.r + offset_r(d)) as i32 }),
        ) == Some(d),
{
    lemma_direction_to_characterization(
        c,
        (HexCoord { q: (c.q + offset_q(d)) as i32, r: (c.r + offset_r(d)) as i32 }),
        d,
    );
}

/// Every neighbor lies at cube distance exactly one.
pub proof fn lemma_neighbor_distance(c: HexCoord, d: HexDirection)
    requires
        i32::MIN <= c.q + offset_q(d) <= i32::MAX,
        i32::MIN <= c.r + offset_r(d) <= i32::MAX,
    ensures
        spec_distance(
            c,
            (HexCoord { q: (c.q + offset_q(d)) as i32, r: (c.r + offset_r(d)) as i32 }),
        ) == 1,
{
}

/// A left rotation followed by a right rotation is the identity, and the
/// opposite direction equals three left rotations.
pub proof fn lemma_rotation_consistency(d: HexDirection)
    ensures
        spec_rotate_right(spec_rotate_left(d)) == d,
        spec_rotate_left(spec_rotate_right(d)) == d,
        spec_opposite(d) == spec_rotate_left(spec_rotate_left(spec_rotate_left(d))),
{
}

} // verus!
