use planar_ik::{iteration_plan, IKConstraint, IKTarget, Pose, Step};

type Chain = IKConstraint<(f64, f64), f64, f64>;
type Point = (f64, f64);

fn distance(a: Point, b: Point) -> f64 {
    ((a.0 - b.0).powi(2) + (a.1 - b.1).powi(2)).sqrt()
}

fn heading(from: Point, to: Point) -> f64 {
    (to.1 - from.1).atan2(to.0 - from.0)
}

fn toward(from: Point, to: Point, length: f64) -> Point {
    let d = distance(from, to);
    let (dx, dy) = if d == 0.0 {
        (1.0, 0.0)
    } else {
        ((to.0 - from.0) / d, (to.1 - from.1) / d)
    };
    (from.0 + dx * length, from.1 + dy * length)
}

/// Carries out the planned passes on positions alone, for a chain without
/// joint limits and without parents; returns the number of passes made.
fn solve_positions(c: &Chain, positions: &mut Vec<Point>) -> usize {
    let target = c.target_position(None).unwrap();
    let plan = iteration_plan(c.chain.len());
    let mut done = 0;
    loop {
        let effector = positions[positions.len() - 1];
        let converged = distance(effector, target).powi(2) < c.epsilon * c.epsilon;
        if !c.should_iterate(done, converged) {
            return done;
        }
        let anchor = positions[0];
        for step in &plan {
            match *step {
                Step::Seek { effector } => positions[effector] = target,
                Step::Pull { moved, toward: next } => {
                    let length = c.bone(c.chain[moved], c.chain[next]).unwrap().length;
                    positions[moved] = toward(positions[next], positions[moved], length);
                }
                Step::Repin { anchor: a } => positions[a] = anchor,
                Step::Reach { from, to } => {
                    let length = c.bone(c.chain[from], c.chain[to]).unwrap().length;
                    positions[to] = toward(positions[from], positions[to], length);
                }
                Step::FaceTarget { .. } | Step::ClampEffector { .. } => {}
            }
        }
        done += 1;
    }
}

fn straight_chain(target: Point) -> (Chain, Vec<Point>) {
    let positions = vec![(0.0, 0.0), (10.0, 0.0), (20.0, 0.0)];
    let poses: Vec<Option<Pose<Point, f64>>> = positions
        .iter()
        .map(|&position| Some(Pose { position, rotation: 0.0 }))
        .collect();
    let mut c: Chain = IKConstraint::new(vec![1, 2, 3], 1.0).with_target(IKTarget::Pos(target));
    c.capture_rest_pose(&poses, distance, heading).unwrap();
    (c, positions)
}

#[test]
fn plan_of_three_joints() {
    assert_eq!(
        iteration_plan(3),
        vec![
            Step::Seek { effector: 2 },
            Step::Pull { moved: 1, toward: 2 },
            Step::Pull { moved: 0, toward: 1 },
            Step::FaceTarget { effector: 2, prev: 1 },
            Step::Repin { anchor: 0 },
            Step::Reach { from: 0, to: 1 },
            Step::Reach { from: 1, to: 2 },
            Step::ClampEffector { effector: 2 },
        ]
    );
}

#[test]
fn plan_of_two_joints() {
    assert_eq!(
        iteration_plan(2),
        vec![
            Step::Seek { effector: 1 },
            Step::Pull { moved: 0, toward: 1 },
            Step::FaceTarget { effector: 1, prev: 0 },
            Step::Repin { anchor: 0 },
            Step::Reach { from: 0, to: 1 },
            Step::ClampEffector { effector: 1 },
        ]
    );
}

#[test]
fn plan_length_grows_with_chain() {
    for n in 2..12 {
        let plan = iteration_plan(n);
        assert_eq!(plan.len(), 2 * n + 2);
        assert_eq!(plan[n + 1], Step::Repin { anchor: 0 });
        assert_eq!(plan[2 * n + 1], Step::ClampEffector { effector: n - 1 });
    }
}

#[test]
fn reachable_target_is_reached_with_fixed_bones() {
    let (c, mut positions) = straight_chain((15.0, 5.0));
    let passes = solve_positions(&c, &mut positions);
    assert!(passes <= 10);
    assert!(distance(positions[2], (15.0, 5.0)) < c.epsilon);
    assert!((distance(positions[0], positions[1]) - 10.0).abs() < 1e-9);
    assert!((distance(positions[1], positions[2]) - 10.0).abs() < 1e-9);
    assert_eq!(positions[0], (0.0, 0.0));
}

#[test]
fn targets_within_reach_converge() {
    for &target in &[(0.0, 20.0), (-12.0, 9.0), (5.0, -3.0), (19.0, 1.0)] {
        let (c, mut positions) = straight_chain(target);
        solve_positions(&c, &mut positions);
        assert!(distance(positions[2], target) < c.epsilon, "target {:?}", target);
    }
}

#[test]
fn unreachable_target_extends_the_chain() {
    let (c, mut positions) = straight_chain((25.0, 0.0));
    let passes = solve_positions(&c, &mut positions);
    assert_eq!(passes, 10);
    assert!(positions.iter().all(|p| p.0.is_finite() && p.1.is_finite()));
    assert!((positions[1].0 - 10.0).abs() < 1e-9 && positions[1].1.abs() < 1e-9);
    assert!((positions[2].0 - 20.0).abs() < 1e-9 && positions[2].1.abs() < 1e-9);
    assert_eq!(positions[0], (0.0, 0.0));
}

#[test]
fn chain_without_target_has_nothing_to_reach() {
    let (mut c, _) = straight_chain((25.0, 0.0));
    c.remove_target();
    assert!(c.target_position(Some((3.0, 3.0))).is_none());
}
