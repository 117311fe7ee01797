//! Axial hexagonal coordinates, and the spiral of hexes that the structure
//! menu is laid out on.
use vstd::prelude::*;

verus! {

/// One of the six directions from a hexagon to its neighbours.
#[derive(Clone, Copy, Debug, PartialEq, Eq, Structural)]
pub enum HexDirection {
    TopRight,
    Top,
    TopLeft,
    BottomLeft,
    Bottom,
    BottomRight,
}

/// The absolute value of an integer.
pub open spec fn abs_int(v: int) -> int {
    if v < 0 { -v } else { v }
}

/// The distance between two hexagons in axial coordinates: the largest of the
/// three cube-coordinate differences.
pub open spec fn hex_distance(a: (i32, i32), b: (i32, i32)) -> int {
    let dx = abs_int(a.0 - b.0);
    let dy = abs_int(a.1 - b.1);
    let dz = abs_int((a.0 + a.1) - (b.0 + b.1));
    if dx >= dy && dx >= dz { dx } else if dy >= dz { dy } else { dz }
}

/// How many hexagons lie on the ring of the given radius around a centre.
pub open spec fn ring_size(radius: nat) -> nat {
    if radius == 0 { 1 } else { 6 * radius }
}

/// How many hexagons lie on the rings of radius `start` up to, but not
/// including, `end`.
pub open spec fn spiral_size(start: nat, end: nat) -> nat
    decreases end,
{
    if end <= start {
        0
    } else {
        spiral_size(start, (end - 1) as nat) + ring_size((end - 1) as nat)
    }
}

/// The position of a direction in hexx's list of neighbour offsets.
pub open spec fn direction_index(direction: HexDirection) -> int {
    match direction {
        HexDirection::TopRight => 0,
        HexDirection::Top => 1,
        HexDirection::TopLeft => 2,
        HexDirection::BottomLeft => 3,
        HexDirection::Bottom => 4,
        HexDirection::BottomRight => 5,
    }
}

/// The offset from a hexagon to its neighbour in the direction at position
/// `i` (hexx's `NEIGHBORS_COORDS`).
pub open spec fn neighbor_offset(i: int) -> (int, int) {
    if i == 0 {
        (1, -1)
    } else if i == 1 {
        (0, -1)
    } else if i == 2 {
        (-1, 0)
    } else if i == 3 {
        (-1, 1)
    } else if i == 4 {
        (0, 1)
    } else {
        (1, 0)
    }
}

/// The direction in which side `side` (0 to 5) of a ring is walked, for a ring
/// that starts towards direction `start`.
pub open spec fn side_offset(start: int, clockwise: bool, side: int) -> (int, int) {
    if clockwise {
        neighbor_offset((start + 10 - side) % 6)
    } else {
        neighbor_offset((start + 2 + side) % 6)
    }
}

/// The first hexagon of side `side` of the ring of radius `radius`: the ring
/// starts `radius` steps from the centre towards `start`, and each side is
/// `radius` steps long.
pub open spec fn ring_corner(center: (i32, i32), radius: int, start: int, clockwise: bool, side: int) -> (int, int)
    decreases side,
{
    if side <= 0 {
        (center.0 + radius * neighbor_offset(start).0, center.1 + radius * neighbor_offset(start).1)
    } else {
        let prev = ring_corner(center, radius, start, clockwise, side - 1);
        let d = side_offset(start, clockwise, side - 1);
        (prev.0 + radius * d.0, prev.1 + radius * d.1)
    }
}

/// The `k`-th hexagon of the ring of radius `radius` (at least 1).
pub open spec fn ring_hex(center: (i32, i32), radius: int, start: int, clockwise: bool, k: int) -> (i32, i32) {
    let side = k / radius;
    let step = k % radius;
    let corner = ring_corner(center, radius, start, clockwise, side);
    let d = side_offset(start, clockwise, side);
    ((corner.0 + step * d.0) as i32, (corner.1 + step * d.1) as i32)
}

/// The ring of radius `radius` around `center`, as hexx's `custom_ring` walks
/// it: the centre alone for radius 0, else `6 * radius` hexagons.
pub open spec fn ring_hexes(center: (i32, i32), radius: nat, direction: HexDirection, clockwise: bool) -> Seq<(i32, i32)> {
    if radius == 0 {
        seq![center]
    } else {
        Seq::new(6 * radius, |k: int| ring_hex(center, radius as int, direction_index(direction), clockwise, k))
    }
}

/// The rings of radius `start` up to, but not including, `end`, one after the
/// other.
pub open spec fn spiral_rings(center: (i32, i32), start: nat, end: nat, direction: HexDirection, clockwise: bool) -> Seq<(i32, i32)>
    decreases end,
{
    if end <= start {
        Seq::empty()
    } else {
        spiral_rings(center, start, (end - 1) as nat, direction, clockwise) + ring_hexes(
            center,
            (end - 1) as nat,
            direction,
            clockwise,
        )
    }
}

/// The hexagons of the rings of radius `start..end` around `center`, ring
/// after ring, each ring starting towards `direction` and turning clockwise
/// when `clockwise` is set.
pub open spec fn spiral_hexes(
    center: (i32, i32),
    start: u32,
    end: u32,
    direction: HexDirection,
    clockwise: bool,
) -> Seq<(i32, i32)> {
    spiral_rings(center, start as nat, end as nat, direction, clockwise)
}

/// No hexagon occurs twice.
pub open spec fn no_repeated_hexes(hexes: Seq<(i32, i32)>) -> bool {
    forall|i: int, j: int| 0 <= i < j < hexes.len() ==> hexes[i] != hexes[j]
}

/// A spiral holds `spiral_size` hexagons.
pub proof fn lemma_spiral_len(center: (i32, i32), start: nat, end: nat, direction: HexDirection, clockwise: bool)
    ensures
        spiral_rings(center, start, end, direction, clockwise).len() == spiral_size(start, end),
    decreases end,
{
    if end > start {
        lemma_spiral_len(center, start, (end - 1) as nat, direction, clockwise);
    }
}

/// Calls `hexx::Hex::custom_spiral_range` on the range `start..end` around
/// `center`, and hands the hexagons back as `(x, y)` pairs.
///
/// Trusted: the result is `spiral_hexes`, the rings one after the other, each
/// walked as hexx's `custom_ring` walks it (the centre alone for radius 0).
/// The bounds keep hexx's `i32` arithmetic from overflowing and the vector
/// small.
#[verifier::external_body]
pub(crate) fn spiral_range(center: (i32, i32), start: u32, end: u32, direction: HexDirection, clockwise: bool) -> (hexes: Vec<(i32, i32)>)
    requires
        -1_000_000 <= center.0 <= 1_000_000,
        -1_000_000 <= center.1 <= 1_000_000,
        end <= 1024,
    ensures
        hexes@ == spiral_hexes(center, start, end, direction, clockwise),
{
    let dir = match direction {
        HexDirection::TopRight => hexx::Direction::TopRight,
        HexDirection::Top => hexx::Direction::Top,
        HexDirection::TopLeft => hexx::Direction::TopLeft,
        HexDirection::BottomLeft => hexx::Direction::BottomLeft,
        HexDirection::Bottom => hexx::Direction::Bottom,
        HexDirection::BottomRight => hexx::Direction::BottomRight,
    };
    hexx::Hex::new(center.0, center.1).custom_spiral_range(start..end, dir, clockwise).map(|h| (h.x, h.y)).collect()
}

} // verus!
