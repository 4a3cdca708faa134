use boidsim::coord::Coord;

#[test]
fn can_be_constructed() {
    let coord = Coord::new(0, 0, 0).unwrap();
    assert!(coord.0 == 0);
    assert!(coord.1 == 0);
    assert!(coord.2 == 0);

    let coord = Coord::new(1, 2, -3).unwrap();
    assert!(coord.0 == 1);
    assert!(coord.1 == 2);
    assert!(coord.2 == -3);
}

#[test]
fn prevent_construction_out_of_plane() {
    assert_eq!(
        Coord::new(1, 2, 3),
        Err(String::from("(1,2,3) is not on the hexa plane"))
    )
}

#[test]
fn equality() {
    let c1 = Coord::new(1, 2, -3).unwrap();
    let c2 = Coord::new(1, 2, -3).unwrap();
    assert_eq!(c1, c2);

    let c3 = Coord::new(0, 0, 0).unwrap();
    assert_ne!(c1, c3);
}

#[test]
fn addition() -> Result<(), String> {
    let c0 = Coord::zero();
    assert_eq!(c0.add(c0), c0);
    let c1 = Coord::new(1, 2, -3)?;
    let c2 = Coord::new(-4, 5, -1)?;
    let sum = Coord::new(-3, 7, -4)?;
    assert_eq!(c1.add(c2), sum);

    // associativity
    let c3 = Coord::new(2, 3, -5)?;
    assert_eq!(c1.add(c2).add(c3), c1.add(c2.add(c3)));

    // commutativity
    assert_eq!(c1.add(c2), c2.add(c1));

    Ok(())
}

#[test]
fn substraction() -> Result<(), String> {
    let c0 = Coord::zero();
    assert_eq!(c0.sub(c0), c0);
    let c1 = Coord::new(1, 2, -3)?;
    let c2 = Coord::new(-4, 5, -1)?;
    let sum = Coord::new(5, -3, -2)?;
    assert_eq!(c1.sub(c2), sum);

    // !associativity
    let c3 = Coord::new(2, 3, -5)?;
    assert_ne!(c1.sub(c2).sub(c3), c1.sub(c2.sub(c3)));

    // !commutativity
    assert_ne!(c1.sub(c2), c2.sub(c1));

    Ok(())
}

#[test]
fn multiplication() -> Result<(), String> {
    let c0 = Coord::zero();
    assert_eq!(c0.mul(5), c0);

    let c1 = Coord::new(1, 2, -3)?;
    let rhs = 5;
    let mul = Coord::new(1 * rhs, 2 * rhs, -3 * rhs)?;
    assert_eq!(c1.mul(rhs), mul);

    Ok(())
}

#[test]
fn distance() -> Result<(), String> {
    let c0 = Coord::zero();
    assert_eq!(c0.distance(c0), 0);

    let c1 = Coord::new(1, 2, -3)?;
    assert_eq!(c1.distance(c0), c1.length());

    let c2 = Coord::new(4, 5, -9)?;
    assert_eq!(c1.distance(c2), 6);

    // commutativity
    assert_eq!(c1.distance(c2), c2.distance(c1));

    Ok(())
}

#[test]
fn directions() -> Result<(), String> {
    let c0 = Coord::zero();
    let c1 = Coord::new(1, 0, -1)?;
    let c2 = Coord::new(2, 0, -2)?;

    assert_eq!(c0.neighbour(0), c1);
    assert_eq!(c1.neighbour(0), c2);
    assert_eq!(c2.neighbour(3), c1);
    assert_eq!(c1.neighbour(3), c0);

    let c3 = Coord::direction(1);
    assert_eq!(c0.neighbour(1), c3);
    assert_eq!(c3.neighbour(4), c0);

    let c4 = Coord::direction(2);
    assert_eq!(c0.neighbour(2), c4);
    assert_eq!(c4.neighbour(5), c0);

    let c5 = Coord::new(4, 5, -9)?;
    assert_eq!(c5.neighbour(0).neighbour(3), c5);
    assert_eq!(c5.neighbour(1).neighbour(4), c5);
    assert_eq!(c5.neighbour(2).neighbour(5), c5);

    Ok(())
}

#[test]
fn ring_yields_nothing() {
    let c = Coord::new(1, 2, -3).unwrap();
    assert_eq!(c.ring(3).len(), 0);
}

#[test]
fn accessors_match_fields() {
    let c = Coord::new(7, -9, 2).unwrap();
    assert_eq!(c.x(), 7);
    assert_eq!(c.y(), -9);
    assert_eq!(c.z(), 2);
    assert_eq!(c.length(), 9);
}
