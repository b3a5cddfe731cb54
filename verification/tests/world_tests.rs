use circle_world::collision::LengthMismatch;
use circle_world::scalar::Scalar;
use circle_world::vector2::Vector2;
use circle_world::world::{Circle, Constraint, HandleNotFound, World};

fn sc(x: f64) -> Scalar {
    Scalar::from_bits(x.to_bits()).unwrap()
}

fn vec2(x: f64, y: f64) -> Vector2 {
    Vector2::new(sc(x), sc(y))
}

fn xy(v: Vector2) -> (f64, f64) {
    (f64::from_bits(v.x().to_bits()), f64::from_bits(v.y().to_bits()))
}

fn dist_sq(a: Vector2, b: Vector2) -> Scalar {
    let (ax, ay) = xy(a);
    let (bx, by) = xy(b);
    sc((ax - bx) * (ax - bx) + (ay - by) * (ay - by))
}

#[test]
fn new_circle_is_at_rest() {
    let c = Circle::new(sc(1.0), vec2(3.0, 4.0));
    assert_eq!(xy(c.p()), (3.0, 4.0));
    assert_eq!(xy(c.future_p), (3.0, 4.0));
    assert_eq!(xy(c.v), (0.0, 0.0));
    assert_eq!(f64::from_bits(c.inv_mass.to_bits()), 1.0);
    assert_eq!(f64::from_bits(c.x_prim()), 3.0);
    assert_eq!(f64::from_bits(c.y_prim()), 4.0);
    assert_eq!(f64::from_bits(c.radius().to_bits()), 10.0);
}

#[test]
fn movable_means_inverse_mass_above_zero() {
    assert!(Circle::new(sc(1.0), vec2(0.0, 0.0)).is_movable());
    assert!(Circle::new(sc(5e-324), vec2(0.0, 0.0)).is_movable());
    assert!(!Circle::new(sc(0.0), vec2(0.0, 0.0)).is_movable());
    assert!(!Circle::new(sc(-0.0), vec2(0.0, 0.0)).is_movable());
}

#[test]
fn disk_holds_points_closer_than_the_radius() {
    let c = Circle::new(sc(1.0), vec2(0.0, 0.0));
    assert!(c.contains(sc(0.0)));
    assert!(c.contains(sc(99.999)));
    assert!(!c.contains(sc(100.0)));
    assert!(!c.contains(sc(100.001)));
    assert!(c.contains(dist_sq(c.p(), vec2(6.0, 7.9))));
    assert!(!c.contains(dist_sq(c.p(), vec2(6.0, 8.0))));
}

#[test]
fn empty_world_holds_nothing() {
    let w = World::new();
    assert_eq!(w.circles().len(), 0);
    assert_eq!(w.constraints().len(), 0);
    assert_eq!(w.collision_pairs().len(), 0);
    assert!(w.circle_at(&vec![]).unwrap().is_none());
}

#[test]
fn added_circles_are_found_by_their_handles() {
    let mut w = World::new();
    let k1 = w.add_circle(Circle::new(sc(1.0), vec2(1.0, 2.0)));
    let k2 = w.add_circle(Circle::new(sc(0.0), vec2(30.0, 40.0)));
    assert!(!k1.same(k2));
    assert_ne!(k1.id(), k2.id());
    assert!(k1.same(k1));
    assert_eq!(xy(w.circle(k1).unwrap().p()), (1.0, 2.0));
    assert_eq!(xy(w.circle(k2).unwrap().p()), (30.0, 40.0));
    let all = w.circles();
    assert_eq!(all.len(), 2);
    assert!(all[0].0.same(k1));
    assert!(all[1].0.same(k2));
    assert_eq!(xy(all[1].1.p()), (30.0, 40.0));
}

#[test]
fn a_handle_the_world_never_issued_is_not_found() {
    let mut big = World::new();
    big.add_circle(Circle::new(sc(1.0), vec2(0.0, 0.0)));
    let foreign = big.add_circle(Circle::new(sc(1.0), vec2(50.0, 0.0)));
    let mut small = World::new();
    let own = small.add_circle(Circle::new(sc(1.0), vec2(7.0, 7.0)));
    assert!(small.circle(foreign).is_none());
    assert_eq!(small.move_circle(foreign, vec2(1.0, 1.0)), Err(HandleNotFound));
    assert_eq!(small.predict(foreign, vec2(1.0, 1.0), vec2(1.0, 1.0)), Err(HandleNotFound));
    assert_eq!(small.correct(foreign, vec2(1.0, 1.0)), Err(HandleNotFound));
    assert_eq!(small.commit(foreign, None), Err(HandleNotFound));
    assert_eq!(xy(small.circle(own).unwrap().p()), (7.0, 7.0));
    assert_eq!(small.circles().len(), 1);
}

#[test]
fn move_circle_changes_the_position_only() {
    let mut w = World::new();
    let k1 = w.add_circle(Circle::new(sc(1.0), vec2(1.0, 2.0)));
    let k2 = w.add_circle(Circle::new(sc(1.0), vec2(5.0, 5.0)));
    w.predict(k1, vec2(0.5, 0.5), vec2(9.0, 9.0)).unwrap();
    assert_eq!(w.move_circle(k1, vec2(-3.0, 8.0)), Ok(()));
    let c = *w.circle(k1).unwrap();
    assert_eq!(xy(c.p()), (-3.0, 8.0));
    assert_eq!(xy(c.future_p), (9.0, 9.0));
    assert_eq!(xy(c.v), (0.5, 0.5));
    assert_eq!(xy(w.circle(k2).unwrap().p()), (5.0, 5.0));
}

#[test]
fn constraints_are_listed_as_added() {
    let mut w = World::new();
    let k1 = w.add_circle(Circle::new(sc(1.0), vec2(0.0, 0.0)));
    let k2 = w.add_circle(Circle::new(sc(1.0), vec2(30.0, 0.0)));
    let c1 = w.add_constraint(Constraint::CircleDistance(k1, k2, sc(30.0)));
    let c2 = w.add_constraint(Constraint::CircleDistance(k2, k1, sc(12.0)));
    assert_ne!(c1.id(), c2.id());
    let all = w.constraints();
    assert_eq!(all.len(), 2);
    assert_eq!(all[0].0.id(), c1.id());
    assert_eq!(all[1].0.id(), c2.id());
    match all[1].1 {
        Constraint::CircleDistance(a, b, d) => {
            assert!(a.same(k2));
            assert!(b.same(k1));
            assert_eq!(f64::from_bits(d.to_bits()), 12.0);
        }
    }
    assert_eq!(w.circles().len(), 2);
}

#[test]
fn constraint_on_a_missing_circle_has_no_ends() {
    let mut other = World::new();
    other.add_circle(Circle::new(sc(1.0), vec2(0.0, 0.0)));
    let gone = other.add_circle(Circle::new(sc(1.0), vec2(0.0, 0.0)));
    let mut w = World::new();
    let k1 = w.add_circle(Circle::new(sc(1.0), vec2(0.0, 0.0)));
    assert!(w.constraint_ends(&Constraint::CircleDistance(k1, gone, sc(5.0))).is_none());
    assert!(w.constraint_ends(&Constraint::CircleDistance(gone, k1, sc(5.0))).is_none());
    let (a, b) = w.constraint_ends(&Constraint::CircleDistance(k1, k1, sc(5.0))).unwrap();
    assert_eq!(xy(a.p()), (0.0, 0.0));
    assert_eq!(xy(b.p()), (0.0, 0.0));
}

#[test]
fn circle_at_gives_the_first_disk_that_holds_the_point() {
    let mut w = World::new();
    let _k1 = w.add_circle(Circle::new(sc(1.0), vec2(0.0, 0.0)));
    let k2 = w.add_circle(Circle::new(sc(1.0), vec2(15.0, 0.0)));
    let k3 = w.add_circle(Circle::new(sc(1.0), vec2(20.0, 0.0)));
    let point = vec2(17.0, 0.0);
    let d: Vec<Scalar> = w.circles().iter().map(|(_, c)| dist_sq(c.p(), point)).collect();
    let (key, circle) = w.circle_at(&d).unwrap().unwrap();
    assert!(key.same(k2));
    assert!(!key.same(k3));
    assert_eq!(xy(circle.p()), (15.0, 0.0));
    let far = vec2(100.0, 100.0);
    let d: Vec<Scalar> = w.circles().iter().map(|(_, c)| dist_sq(c.p(), far)).collect();
    assert!(w.circle_at(&d).unwrap().is_none());
    assert_eq!(w.circle_at(&vec![sc(0.0)]).err(), Some(LengthMismatch));
}

#[test]
fn every_ordered_pair_of_two_circles_is_tested() {
    let mut w = World::new();
    let k1 = w.add_circle(Circle::new(sc(1.0), vec2(0.0, 0.0)));
    let k2 = w.add_circle(Circle::new(sc(1.0), vec2(15.0, 0.0)));
    let k3 = w.add_circle(Circle::new(sc(1.0), vec2(20.0, 0.0)));
    let pairs = w.collision_pairs();
    let ids: Vec<(u64, u64)> = pairs.iter().map(|(a, b)| (a.id(), b.id())).collect();
    assert_eq!(
        ids,
        vec![
            (k1.id(), k2.id()),
            (k1.id(), k3.id()),
            (k2.id(), k1.id()),
            (k2.id(), k3.id()),
            (k3.id(), k1.id()),
            (k3.id(), k2.id()),
        ]
    );
}

#[test]
fn one_circle_has_no_pair() {
    let mut w = World::new();
    w.add_circle(Circle::new(sc(1.0), vec2(0.0, 0.0)));
    assert_eq!(w.collision_pairs().len(), 0);
    assert_eq!(w.find_collisions(&vec![]).unwrap().len(), 0);
}

#[test]
fn removed_circle_is_gone_and_its_handle_stays_stale() {
    let mut w = World::new();
    let k1 = w.add_circle(Circle::new(sc(1.0), vec2(1.0, 1.0)));
    let k2 = w.add_circle(Circle::new(sc(1.0), vec2(2.0, 2.0)));
    let k3 = w.add_circle(Circle::new(sc(1.0), vec2(3.0, 3.0)));
    let c = Constraint::CircleDistance(k1, k2, sc(50.0));
    w.add_constraint(c);
    let removed = w.remove_circle(k2).unwrap();
    assert_eq!(xy(removed.p()), (2.0, 2.0));
    assert!(w.remove_circle(k2).is_none());
    assert!(w.circle(k2).is_none());
    assert_eq!(w.move_circle(k2, vec2(0.0, 0.0)), Err(HandleNotFound));
    assert_eq!(w.circle_count(), 2);
    let all = w.circles();
    assert!(all[0].0.same(k1));
    assert!(all[1].0.same(k3));
    assert_eq!(w.constraints().len(), 1);
    assert!(w.constraint_ends(&c).is_none());
    assert!(!w.relax(&c, sc(1.0), Some((vec2(9.0, 9.0), vec2(8.0, 8.0)))));
    assert_eq!(xy(w.circle(k1).unwrap().future_p), (1.0, 1.0));
    let k4 = w.add_circle(Circle::new(sc(1.0), vec2(4.0, 4.0)));
    assert!(!k4.same(k2));
    assert!(w.circle(k2).is_none());
    assert_eq!(xy(w.circle(k4).unwrap().p()), (4.0, 4.0));
    assert_eq!(w.collision_pairs().len(), 6);
}
