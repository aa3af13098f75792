//! The collision gate, the standoff and what a refusal says.
use par6d::collision_world::{Shape, ShapeLayer, ShapeNames};
use par6d::gate::{
    blocked, gate_question, projection_seed, set_layer, world_offenders, Depths,
    GateQuestion,
};
use par6d::runtime::{render_pairs, CollisionState, ErrorCode, Mode, Refusal};
use par6d::standoff::{segment_steps, walk_steps, Stop, StopSearch};

fn pairs(names: &[(&str, &str)]) -> Vec<(String, String)> {
    names
        .iter()
        .map(|(a, b)| ((*a).to_owned(), (*b).to_owned()))
        .collect()
}

#[test]
fn a_clear_arm_is_stopped_by_what_it_would_hit() {
    let wall = pairs(&[("L6", "install:wall")]);
    assert_eq!(gate_question(&vec![], &vec![]), GateQuestion::Segment);
    assert_eq!(gate_question(&vec![], &wall), GateQuestion::Settled);
    assert_eq!(blocked(vec![], vec![], None, None), None);
    assert_eq!(
        blocked(vec![], vec![], Some(wall.clone()), None),
        Some(wall.clone())
    );
    assert_eq!(blocked(vec![], wall.clone(), None, None), Some(wall));
}

#[test]
fn an_arm_in_a_keep_out_may_not_go_deeper() {
    let wall = pairs(&[("L6", "install:wall")]);
    let both = pairs(&[("L6", "install:wall"), ("L5", "shape:box")]);
    let at = |there| Some(Depths { there, kept: -10 });
    assert_eq!(gate_question(&wall, &wall), GateQuestion::Depth);
    // Farther, as far, and a little deeper within the tolerance.
    for there in [5, 0, -10] {
        assert_eq!(blocked(wall.clone(), wall.clone(), None, at(there)), None);
    }
    assert_eq!(
        blocked(wall.clone(), wall.clone(), None, at(-11)),
        Some(wall.clone())
    );
    assert_eq!(
        blocked(wall.clone(), vec![], None, at(-11)),
        Some(wall.clone())
    );
    assert_eq!(
        blocked(wall, both, None, at(5)),
        Some(pairs(&[("L5", "shape:box")])),
        "only what is new is reported"
    );
}

#[test]
fn an_arm_that_rests_in_itself_is_not_trapped() {
    let rest = pairs(&[("L2", "L4")]);
    assert_eq!(gate_question(&rest, &rest), GateQuestion::Settled);
    assert_eq!(blocked(rest.clone(), rest.clone(), None, None), None);
    let both = pairs(&[("L2", "L4"), ("L6", "install:wall")]);
    assert_eq!(
        world_offenders(&both),
        pairs(&[("L6", "install:wall")])
    );
    assert_eq!(projection_seed(Some(1), 2), 1);
    assert_eq!(projection_seed(None, 2), 2);
}

#[test]
fn what_the_collision_world_did_not_take_is_not_recorded() {
    let mut names = ShapeNames::default();
    let shapes = [Shape {
        name: "wall".to_owned(),
        collision: true,
    }];
    let layer = ShapeLayer::Installation;
    let e = set_layer(&mut names, layer, &shapes, Err("no kind".to_owned()), Ok(()))
        .unwrap_err();
    assert_eq!(e.code(), ErrorCode::CommValidationError);
    assert_eq!(e.detail(), "no kind");
    let e = set_layer(&mut names, layer, &shapes, Ok(()), Err("broken".to_owned()))
        .unwrap_err();
    assert_eq!(e.detail(), "stream gate collision world: broken");
    assert_eq!(names.display("wall"), "wall");
    set_layer(&mut names, layer, &shapes, Ok(()), Ok(())).unwrap();
    assert_eq!(names.display("wall"), "install:wall");
}

#[test]
fn a_refusal_names_the_first_few_pairs() {
    assert_eq!(render_pairs(&vec![]), "");
    let many = pairs(&[
        ("a", "b"),
        ("c", "d"),
        ("e", "f"),
        ("g", "h"),
        ("i", "j"),
    ]);
    assert_eq!(render_pairs(&many), "[a, b], [c, d], [e, f], [g, h]");
    let mut latch = CollisionState::default();
    let refusal = latch.refuse(pairs(&[("a", "b")]));
    assert_eq!(refusal.code(), ErrorCode::SysSelfCollision);
    assert_eq!(refusal.detail(), "[a, b]");
    assert!(latch.active);
    assert_eq!(latch.standing_refusal().detail(), "[a, b]");
    latch.clear();
    assert!(!latch.active && latch.pairs.is_empty());
}

#[test]
fn every_refusal_has_its_code_and_its_detail() {
    let stayed = |want, mode| Refusal::ModeStayed { want, mode };
    assert_eq!(Refusal::EstopActive.code(), ErrorCode::SysEstopActive);
    assert_eq!(Refusal::EstopActive.detail(), "");
    assert_eq!(
        Refusal::ControllerDisabled.code(),
        ErrorCode::SysControllerDisabled
    );
    assert!(Refusal::ControllerDisabled
        .detail()
        .starts_with("The RT core refused to enable"));
    assert_eq!(
        stayed(Mode::Flashing, Mode::Exec).detail(),
        "the controller mode stayed Exec: FLASHING is reachable only from IDLE and ACTIVE_ERROR"
    );
    assert_eq!(
        stayed(Mode::Idle, Mode::Flashing).detail(),
        "the controller mode stayed Flashing instead of returning to IDLE"
    );
    let bus = Refusal::BusRefused {
        interface: "can0".to_owned(),
        cause: "down".to_owned(),
    };
    assert_eq!(bus.code(), ErrorCode::MotnSetupFailed);
    assert_eq!(bus.detail(), "cannot open 'can0': down");
}

/// Run a search on a line whose clear positions are given in coarse steps.
fn search(touching: bool, steps: usize, clear: &dyn Fn(f64) -> bool) -> (Stop, usize) {
    let mut s = StopSearch::start(touching, steps);
    let mut asked = 0;
    while let Some(probe) = s.probe() {
        let at = f64::from(probe.at) / 65536.0;
        s.answer(clear(if probe.behind { -at } else { at }));
        asked += 1;
    }
    (s.outcome().unwrap(), asked)
}

#[test]
fn a_refused_arm_belongs_on_the_edge_of_what_it_must_keep_off() {
    let (stop, asked) = search(false, 16, &|x| x < 5.3);
    let Stop::At { behind: false, at } = stop else {
        panic!("{stop:?}");
    };
    let at = f64::from(at) / 65536.0;
    assert!(at < 5.3 && 5.3 - at < 1e-4, "stopped at {at}");
    assert!(asked <= 6 + 16);
    assert_eq!(search(false, 16, &|_| true).0, Stop::Target);
}

#[test]
fn an_arm_that_touches_takes_the_nearest_way_out() {
    let (stop, _) = search(true, 16, &|x| x < -2.5 || x > 7.0);
    let Stop::At { behind: true, at } = stop else {
        panic!("{stop:?}");
    };
    let at = f64::from(at) / 65536.0;
    assert!(at > 2.5 && at - 2.5 < 1e-2, "stopped at {at}");
    let (stop, asked) = search(true, 16, &|_| false);
    assert_eq!(stop, Stop::Hold);
    assert_eq!(asked, 2 * 512);
}

#[test]
fn the_cost_of_a_check_is_bounded() {
    assert_eq!(segment_steps(None), 32);
    assert_eq!(segment_steps(Some(0)), 8);
    assert_eq!(segment_steps(Some(20)), 20);
    assert_eq!(segment_steps(Some(1_000_000)), 32);
    assert_eq!(walk_steps(1), 8);
    assert_eq!(walk_steps(1_000_000), 512);
}
