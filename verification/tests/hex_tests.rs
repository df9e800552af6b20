use hexworld::hex::{HexCoord, HexDirection};

fn all_directions() -> Vec<HexDirection> {
    HexDirection::all()
}

#[test]
fn distance_is_symmetric_and_zero_on_self() {
    let pairs = [
        (HexCoord::new(0, 0), HexCoord::new(3, -1)),
        (HexCoord::new(1, 2), HexCoord::new(-4, 5)),
        (HexCoord::new(-7, -7), HexCoord::new(7, 7)),
        (HexCoord::new(100, -50), HexCoord::new(-3, 8)),
    ];
    for (a, b) in pairs {
        assert_eq!(a.distance(b), b.distance(a));
        assert_eq!(a.distance(a), 0);
        assert_eq!(b.distance(b), 0);
    }
}

#[test]
fn distance_concrete_values() {
    let origin = HexCoord::new(0, 0);
    assert_eq!(origin.distance(HexCoord::new(1, 0)), 1);
    assert_eq!(origin.distance(HexCoord::new(1, -1)), 1);
    assert_eq!(origin.distance(HexCoord::new(2, -1)), 2);
    assert_eq!(origin.distance(HexCoord::new(3, 3)), 6);
    assert_eq!(origin.distance(HexCoord::new(-2, -2)), 4);
    assert_eq!(HexCoord::new(5, 5).distance(HexCoord::new(5, 9)), 4);
}

#[test]
fn distance_triangle_inequality_samples() {
    let a = HexCoord::new(0, 0);
    let b = HexCoord::new(4, -2);
    let c = HexCoord::new(-3, 7);
    assert!(a.distance(c) <= a.distance(b) + b.distance(c));
    assert!(a.distance(b) <= a.distance(c) + c.distance(b));
}

#[test]
fn neighbor_round_trip_all_directions() {
    let c = HexCoord::new(11, -4);
    for d in all_directions() {
        assert_eq!(c.neighbor(d).neighbor(d.opposite()), c);
    }
}

#[test]
fn neighbors_canonical_order() {
    let c = HexCoord::new(2, 3);
    let n = c.neighbors();
    assert_eq!(n.len(), 6);
    assert_eq!(n[0], HexCoord::new(3, 3)); // East
    assert_eq!(n[1], HexCoord::new(3, 2)); // NorthEast
    assert_eq!(n[2], HexCoord::new(2, 2)); // NorthWest
    assert_eq!(n[3], HexCoord::new(1, 3)); // West
    assert_eq!(n[4], HexCoord::new(1, 4)); // SouthWest
    assert_eq!(n[5], HexCoord::new(2, 4)); // SouthEast
}

#[test]
fn every_neighbor_is_at_distance_one() {
    let c = HexCoord::new(-3, 12);
    for d in all_directions() {
        assert_eq!(c.distance(c.neighbor(d)), 1);
    }
}

#[test]
fn direction_to_neighbor_gives_that_direction() {
    let c = HexCoord::new(-5, 9);
    for d in all_directions() {
        assert_eq!(c.direction_to(c.neighbor(d)), Some(d));
    }
}

#[test]
fn direction_to_self_and_far_is_none() {
    let c = HexCoord::new(4, 4);
    assert_eq!(c.direction_to(c), None);
    assert_eq!(c.direction_to(HexCoord::new(6, 4)), None);
    assert_eq!(c.direction_to(HexCoord::new(5, 5)), None);
    assert_eq!(c.direction_to(HexCoord::new(-100, 30)), None);
}

#[test]
fn from_cube_succeeds_exactly_on_valid_triples() {
    assert_eq!(HexCoord::from_cube(2, -1, -1), Some(HexCoord::new(2, -1)));
    assert_eq!(HexCoord::from_cube(0, 0, 0), Some(HexCoord::new(0, 0)));
    assert_eq!(HexCoord::from_cube(-3, 1, 2), Some(HexCoord::new(-3, 1)));
    assert_eq!(HexCoord::from_cube(1, 1, 1), None);
    assert_eq!(HexCoord::from_cube(2, -1, 0), None);
    assert_eq!(
        HexCoord::from_cube(i32::MAX, i32::MAX, i32::MAX),
        None
    );
}

#[test]
fn rotations_are_mutually_consistent() {
    for d in all_directions() {
        assert_eq!(d.rotate_left().rotate_right(), d);
        assert_eq!(d.rotate_right().rotate_left(), d);
        assert_eq!(d.rotate_left().rotate_left().rotate_left(), d.opposite());
        assert_eq!(d.opposite().opposite(), d);
        assert_ne!(d.opposite(), d);
    }
}

#[test]
fn rotate_left_steps_through_canonical_ring() {
    assert_eq!(HexDirection::East.rotate_left(), HexDirection::NorthEast);
    assert_eq!(HexDirection::NorthEast.rotate_left(), HexDirection::NorthWest);
    assert_eq!(HexDirection::NorthWest.rotate_left(), HexDirection::West);
    assert_eq!(HexDirection::West.rotate_left(), HexDirection::SouthWest);
    assert_eq!(HexDirection::SouthWest.rotate_left(), HexDirection::SouthEast);
    assert_eq!(HexDirection::SouthEast.rotate_left(), HexDirection::East);
    assert_eq!(HexDirection::East.opposite(), HexDirection::West);
}

#[test]
fn add_and_sub_are_componentwise() {
    let a = HexCoord::new(3, -2);
    let b = HexCoord::new(-1, 5);
    assert_eq!(a.add(b), HexCoord::new(2, 3));
    assert_eq!(a.sub(b), HexCoord::new(4, -7));
    assert_eq!(a.add(b).sub(b), a);
}
