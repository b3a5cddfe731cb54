use circle_world::scalar::Scalar;
use circle_world::tick::{Phase, Step};
use circle_world::vector2::Vector2;
use circle_world::world::{Circle, Constraint, World};

fn sc(x: f64) -> Scalar {
    Scalar::from_bits(x.to_bits()).unwrap()
}

#[test]
fn a_tick_runs_through_its_phases_in_order() {
    let mut phase = Phase::Idle;
    for step in [Step::Prepare, Step::Solve, Step::Commit, Step::Finish] {
        assert_eq!(phase.due(), step);
        phase = phase.advance(step).unwrap();
    }
    assert_eq!(phase, Phase::Idle);
}

#[test]
fn a_step_out_of_order_is_refused() {
    let phases = [Phase::Idle, Phase::Prepared, Phase::Solved, Phase::Committed];
    let steps = [Step::Prepare, Step::Solve, Step::Commit, Step::Finish];
    for (i, phase) in phases.iter().enumerate() {
        for (j, step) in steps.iter().enumerate() {
            let next = phase.advance(*step);
            if i == j {
                assert_eq!(next, Some(phases[(i + 1) % 4]));
            } else {
                assert_eq!(next, None);
            }
        }
    }
}

#[test]
fn counts_follow_what_was_added() {
    let mut w = World::new();
    assert_eq!(w.circle_count(), 0);
    assert_eq!(w.constraint_count(), 0);
    let k1 = w.try_add_circle(Circle::new(sc(1.0), Vector2::zero())).unwrap();
    let k2 = w.try_add_circle(Circle::new(sc(1.0), Vector2::one())).unwrap();
    assert!(!k1.same(k2));
    assert_eq!(w.circle_count(), 2);
    let c = w.try_add_constraint(Constraint::CircleDistance(k1, k2, sc(3.0))).unwrap();
    assert_eq!(w.constraint_count(), 1);
    assert_eq!(w.constraints()[0].0.id(), c.id());
    assert!(w.circle(k2).unwrap().p().same(Vector2::one()));
}
