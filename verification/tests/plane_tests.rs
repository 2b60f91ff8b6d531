use workshop::plane::Point;

fn dist(p: &Point, q: &Point) -> f64 {
    (p.dist_squared(q) as f64).sqrt()
}

#[test]
fn test_dist() {
    let p1 = Point { x: 0, y: 0 };
    let p2 = Point { x: 3, y: 4 };
    assert!(dist(&p1, &p2) == 5.0);
}

#[test]
fn test_dist2() {
    let p1 = Point { x: 0, y: 0 };
    let p2 = Point { x: 3, y: 4 };
    assert_eq!(dist(&p1, &p2), 5.0);
}

#[test]
fn test_dist3() {
    let p1 = Point { x: 0, y: 0 };
    let p2 = Point { x: 3, y: 4 };
    assert_ne!(dist(&p1, &p2), 4.0);
}

#[test]
fn test_dist4() {
    let p1 = Point { x: 0, y: 0 };
    let p2 = Point { x: 3, y: 4 };
    assert_ne!(p1, p2);
}

#[test]
fn test_dist5() {
    let p1 = Point { x: 0, y: 0 };
    let p2 = Point { x: 3, y: 4 };
    assert_ne!(
        p1, p2,
        "p1 and p2 weren't equal because p1 = {:?} and p2 = {:?}",
        p1, p2
    );
}

#[test]
fn test_dist8() -> Result<(), String> {
    let p1 = Point { x: 0, y: 0 };
    let p2 = Point { ..p1 };
    if p1 == p2 {
        Ok(())
    } else {
        Err("points are just not equal, man :(".to_string())
    }
}

#[test]
fn create_point1() {
    let x = Point::new(3, 4);
    assert_eq!(x, Point { x: 3, y: 4 });
}

#[test]
fn dist_squared_of_mixed_signs() {
    let p1 = Point::new(-2, 1);
    let p2 = Point::new(1, -3);
    assert_eq!(p1.dist_squared(&p2), 25);
}
