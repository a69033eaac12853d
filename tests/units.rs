use battleisles::roster;
use battleisles::unit::{HitPoints, Position, Unit};

#[test]
fn unit_test() {
    let unit = roster::Unit {
        name: "Tank".to_string(),
        health: 100,
    };
    assert_eq!(unit.name, "Tank");
    assert_eq!(unit.health, 100);
}

#[test]
fn tank_moves_and_takes_damage() {
    let mut u = Unit::Tank(Position::new((0, 0)), HitPoints::new(100));
    u.relocate((3, 4));
    u.take(30);
    match &u {
        Unit::Tank(p, h) => {
            assert_eq!(p.get(), (3, 4));
            assert_eq!(h.get(), 70);
        }
        Unit::SamSite(..) => panic!("variant changed"),
    }
}

#[test]
fn sam_site_stays_put() {
    let mut u = Unit::SamSite(Position::new((1, 1)), HitPoints::new(50));
    u.relocate((9, 9));
    u.take(60);
    match &u {
        Unit::SamSite(p, h) => {
            assert_eq!(p.get(), (1, 1));
            assert_eq!(h.get(), -10);
        }
        Unit::Tank(..) => panic!("variant changed"),
    }
}
