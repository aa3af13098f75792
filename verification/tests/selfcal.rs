//! Homing, tuning, probing, identifying and parking.
use par6d::selfcal::adaptive::{
    backoff_stop, reverse_travel, seek_expired, Adaptive, Attempt, Backed, Event, GivenUp, Phase,
    Request,
};
use par6d::selfcal::gains::{
    runs_away_message, trial_score, GainBook, GainField, GainPhase, GainSearch, LoopGains, Scored,
    Trial, TrialEnd, TrialMove, Walk,
};
use par6d::selfcal::homing::{
    homer_event, homer_result, homing_actions, move_result, planned_ready, HomeFailure, HomeJoint,
    HomePhase, HomerEvent, HomingAction, HomingStep, MoveTo, Release, ReleaseStep,
};
use par6d::selfcal::identification::{
    best_candidate, measure_legs, nearest, no_travel_message, visit_legs, Draw, PickRound,
    PlanError, PlanPhase, Planner, CANDIDATES, DRAWS,
};
use par6d::selfcal::identification::{Leg, Stop};
use par6d::selfcal::limits::{
    may_descend, Found, LimitPhase, LimitSearch, Observed, Probe, ProbeScore, ProbeState,
    ProbeTarget, ProbeTicks, Reach, StepFailure,
};
use par6d::selfcal::motion::Outcome;
use par6d::selfcal::parking::{
    kept_message, not_returned_message, park_plan, parking_order, ParkPlan, Parking,
};
use par6d::selfcal::run::{apply, refusal, scaled_joints, valid_cpu, Apply, Run, RunOptions, Stage};

fn attempt(outcome: Outcome, direction: i32, acceptable: bool, at: i32) -> Attempt {
    Attempt {
        outcome,
        direction,
        acceptable,
        at,
    }
}

const STOP_SEEK: Request = Request::Seek { hall: false };

fn backed(outcome: Outcome, travel: i64, acceptable: bool) -> Event {
    Event::Backed {
        backed: Backed {
            outcome,
            travel,
            minimum: 10,
            acceptable,
        },
        on_target: true,
    }
}

#[test]
fn a_new_stop_is_taken_once_the_joint_moved_back_from_it() {
    let mut m = Adaptive::new(STOP_SEEK, -1, None, 5, false, 100);
    assert!(m.watched());
    let hit = attempt(Outcome::Blocked, -1, false, 500);
    m.step(Event::Moved {
        attempt: hit,
        ticks: 40,
    });
    assert_eq!(m.phase, Phase::Back { attempt: hit });
    m.step(backed(Outcome::Complete, 10, true));
    assert_eq!(m.phase, Phase::Done { attempt: hit });
    assert_eq!(m.spent, 40);
}

#[test]
fn a_known_stop_is_confirmed_within_the_tolerance() {
    let mut m = Adaptive::new(STOP_SEEK, -1, Some(505), 5, false, 100);
    assert!(!m.watched(), "its load must not call for tuning");
    let hit = attempt(Outcome::Blocked, -1, false, 500);
    m.step(Event::Moved {
        attempt: hit,
        ticks: 1,
    });
    assert_eq!(m.phase, Phase::Done { attempt: hit });
    let mut m = Adaptive::new(STOP_SEEK, -1, Some(506), 5, false, 100);
    m.step(Event::Moved {
        attempt: hit,
        ticks: 1,
    });
    assert_eq!(m.phase, Phase::Back { attempt: hit });
}

#[test]
fn a_joint_that_moves_neither_way_is_given_up() {
    let hit = attempt(Outcome::Blocked, 1, false, 0);
    let moved = Event::Moved {
        attempt: hit,
        ticks: 1,
    };
    let mut m = Adaptive::new(Request::Position, 1, None, 5, false, 0);
    m.step(moved);
    m.step(backed(Outcome::Blocked, 9, false));
    assert_eq!(
        m.phase,
        Phase::GaveUp {
            reason: GivenUp::CannotMove
        }
    );
    let mut m = Adaptive::new(Request::Position, 1, None, 5, false, 0);
    m.step(moved);
    m.step(backed(Outcome::Blocked, 10, false));
    assert_eq!(
        m.phase,
        Phase::GaveUp {
            reason: GivenUp::ReverseBlocked
        }
    );
    let mut m = Adaptive::new(Request::Position, 1, None, 5, false, 0);
    m.step(moved);
    m.step(backed(Outcome::Complete, 10, true));
    assert_eq!(
        m.phase,
        Phase::GaveUp {
            reason: GivenUp::StopInTheWay
        }
    );
}

#[test]
fn a_hall_seek_goes_on_after_a_stall_until_its_time_is_up() {
    let mut m = Adaptive::new(Request::Seek { hall: true }, 1, None, 5, false, 100);
    let hit = attempt(Outcome::Blocked, 1, false, 0);
    m.step(Event::Moved {
        attempt: hit,
        ticks: 60,
    });
    m.step(backed(Outcome::Complete, 50, true));
    assert_eq!(m.phase, Phase::Move);
    m.step(Event::Moved {
        attempt: hit,
        ticks: 60,
    });
    m.step(backed(Outcome::Complete, 50, true));
    assert_eq!(
        m.phase,
        Phase::GaveUp {
            reason: GivenUp::ReferenceNotFound
        }
    );
    assert_eq!(
        GivenUp::ReferenceNotFound.message(5),
        "J6 home reference not found within configured seek time"
    );
}

#[test]
fn a_backoff_that_is_rough_is_tuned_and_finished() {
    let mut m = Adaptive::new(STOP_SEEK, -1, None, 5, false, 100);
    let hit = attempt(Outcome::Blocked, -1, false, 500);
    m.step(Event::Moved {
        attempt: hit,
        ticks: 1,
    });
    m.step(backed(Outcome::Tracking, 50, false));
    assert_eq!(
        m.phase,
        Phase::TuneBack {
            attempt: hit,
            completed: false
        }
    );
    m.step(Event::Tuned {
        blocked: None,
        on_target: true,
    });
    assert_eq!(m.phase, Phase::Return { attempt: hit });
    m.step(Event::Returned);
    assert_eq!(m.phase, Phase::Done { attempt: hit });
}

#[test]
fn a_rough_transfer_is_tuned_unless_nothing_is() {
    let rough = attempt(Outcome::Complete, 1, false, 0);
    let moved = Event::Moved {
        attempt: rough,
        ticks: 1,
    };
    let mut m = Adaptive::new(Request::Position, 1, None, 5, false, 0);
    m.step(moved);
    assert_eq!(m.phase, Phase::Tune);
    let contact = attempt(Outcome::Blocked, 1, false, 3);
    m.step(Event::Tuned {
        blocked: Some(contact),
        on_target: false,
    });
    assert_eq!(m.phase, Phase::Back { attempt: contact });
    m.step(backed(Outcome::Timeout, 0, false));
    assert_eq!(m.phase, Phase::Tune);
    m.step(Event::Tuned {
        blocked: None,
        on_target: false,
    });
    assert_eq!(m.phase, Phase::Move);
    let mut m = Adaptive::new(Request::Position, 1, None, 5, true, 0);
    m.step(moved);
    assert_eq!(m.phase, Phase::Done { attempt: rough });
}

#[test]
fn a_seek_that_was_followed_well_and_saw_nothing_has_no_home_event() {
    let mut m = Adaptive::new(STOP_SEEK, -1, None, 5, false, 100);
    m.step(Event::Moved {
        attempt: attempt(Outcome::Timeout, -1, true, 0),
        ticks: 1,
    });
    assert_eq!(
        m.phase,
        Phase::GaveUp {
            reason: GivenUp::NoHomeEvent
        }
    );
    assert_eq!(
        GivenUp::NoHomeEvent.message(0),
        "J1 no home event arrived within configured seek time"
    );
    assert_eq!(
        GivenUp::CannotMove.message(1),
        "J2 cannot move either direction at the configured homing/operating currents"
    );
    assert_eq!(
        GivenUp::ReverseBlocked.message(2),
        "J3 reverse move blocked at its configured current"
    );
    assert_eq!(
        GivenUp::StopInTheWay.message(3),
        "J4 requested transfer encounters a stop; reverse motion works"
    );
    assert!(seek_expired(STOP_SEEK, 5, 5));
    assert!(!seek_expired(Request::Position, 5, 5));
    assert_eq!(reverse_travel(100, 40, 1), 60);
    assert_eq!(reverse_travel(i32::MIN, i32::MAX, -1), 4_294_967_295);
    assert_eq!(backoff_stop(false, -1, 1, 9), Some(9));
    assert_eq!(backoff_stop(true, -1, 1, 9), None);
    assert_eq!(backoff_stop(false, 1, 1, 9), None);
}

#[test]
fn a_stop_reference_repeats_or_is_not_taken() {
    let mut home = HomeJoint::new(false, true, 2, 5);
    assert_eq!(home.confirms(), None);
    home.approached(Some(100));
    assert_eq!(home.confirms(), Some(100));
    home.approached(Some(110));
    assert_eq!(home.confirms(), Some(110));
    home.approached(Some(115));
    assert_eq!(home.phase, HomePhase::Found { reference: 115 });
    home.released(3, 4, 7);
    assert_eq!(home.phase, HomePhase::Found { reference: 115 });
    home.released(4, 4, 7);
    assert_eq!(home.phase, HomePhase::Found { reference: 7 });

    let mut home = HomeJoint::new(false, true, 0, 5);
    home.approached(Some(100));
    home.approached(Some(106));
    assert_eq!(
        home.phase,
        HomePhase::Failed {
            reason: HomeFailure::NotRepeated
        }
    );
}

#[test]
fn a_hall_edge_is_its_own_reference_and_a_single_pass_returns() {
    let mut home = HomeJoint::new(true, true, 3, 5);
    home.approached(Some(100));
    assert_eq!(home.phase, HomePhase::Found { reference: 100 });
    let mut home = HomeJoint::new(false, false, 3, 5);
    home.approached(Some(100));
    assert_eq!(home.confirms(), Some(100));
    home.approached(Some(300));
    assert_eq!(home.phase, HomePhase::Found { reference: 300 });
    let mut home = HomeJoint::new(false, false, 3, 5);
    home.approached(None);
    assert_eq!(
        home.phase,
        HomePhase::Failed {
            reason: HomeFailure::NoReference
        }
    );
}

#[test]
fn every_failure_of_homing_has_its_words() {
    let told = [
        (HomeFailure::NoReference, "home reference unavailable"),
        (
            HomeFailure::NoSecondReference,
            "second home reference unavailable",
        ),
        (HomeFailure::NoFinalContact, "missing final contact"),
        (
            HomeFailure::NotRepeated,
            "J3 home reference did not repeat within requested experiment budget",
        ),
        (
            HomeFailure::NoFreshFeedback,
            "J3 no fresh encoder feedback after release",
        ),
        (
            HomeFailure::SilentAfterRelease,
            "J3 gave no feedback after release",
        ),
        (HomeFailure::NotReferenced, "J3 is not referenced"),
        (
            HomeFailure::NotReached,
            "J3 did not reach the requested position",
        ),
        (HomeFailure::SequenceFailed, "J3 homing failed"),
        (
            HomeFailure::NeverLatched,
            "J3 finished homing without a reference",
        ),
    ];
    for (failure, words) in told {
        assert_eq!(failure.message(2), words);
    }
    assert_eq!(
        homer_event(Some(1), Some(HomerEvent::Reference { latched: 2 })),
        Ok(Some(2))
    );
    assert_eq!(homer_event(Some(1), None), Ok(Some(1)));
    assert_eq!(
        homer_event(Some(1), Some(HomerEvent::Failed)),
        Err(HomeFailure::SequenceFailed)
    );
    assert_eq!(homer_result(None), Err(HomeFailure::NeverLatched));
    assert_eq!(homer_result(Some(4)), Ok(4));
    assert_eq!(
        move_result(false, None),
        Err(HomeFailure::NotReferenced)
    );
    assert_eq!(
        move_result(true, Some(false)),
        Err(HomeFailure::NotReached)
    );
    assert_eq!(move_result(true, Some(true)), Ok(()));
}

#[test]
fn a_released_joint_is_polled_until_it_gives_something_new() {
    let mut release = Release { generation: 0 };
    assert!(Release::idles(1) && !Release::idles(2));
    assert_eq!(release.observe(0, 7), ReleaseStep::Releasing);
    assert_eq!(release.observe(1, 8), ReleaseStep::Releasing);
    assert_eq!(release.observe(2, 8), ReleaseStep::Waiting);
    assert_eq!(release.observe(3, 9), ReleaseStep::Fresh);
}

#[test]
fn the_homing_sequence_runs_in_order_and_leaves_the_ready_pose() {
    let steps = vec![
        HomingStep {
            pre_moves: vec!["nudge"],
            home: vec![5, 3],
            move_to: vec![MoveTo {
                joint: 1,
                position: 20,
            }],
            post_moves: vec!["idle"],
        },
        HomingStep {
            pre_moves: vec![],
            home: vec![0],
            move_to: vec![MoveTo {
                joint: 3,
                position: 30,
            }],
            post_moves: vec![],
        },
    ];
    assert_eq!(
        homing_actions(&steps, &vec!["end"]),
        [
            HomingAction::PreMove("nudge"),
            HomingAction::Home(5),
            HomingAction::Home(3),
            HomingAction::MoveTo(MoveTo {
                joint: 1,
                position: 20
            }),
            HomingAction::PreMove("idle"),
            HomingAction::Home(0),
            HomingAction::MoveTo(MoveTo {
                joint: 3,
                position: 30
            }),
            HomingAction::PreMove("end"),
        ]
    );
    let post_home = vec![None, None, None, Some(3), None, Some(5)];
    assert_eq!(
        planned_ready(&vec![0, 1, 2, 0, 4, 0], &steps, &post_home),
        [0, 20, 2, 30, 4, 5]
    );
}

#[test]
fn gains_walk_down_first_and_up_only_if_that_did_not_help() {
    let scored = |gains: u32, score: u64| {
        TrialEnd::Ran(Scored {
            gains,
            score,
            bar: score * 95 / 100,
        })
    };
    let mut search = GainSearch::new(10);
    assert_eq!(search.wants(), Some(Trial::Configured));
    search.take(scored(10, 1000));
    let kiv_down = Some(Trial::Step {
        field: GainField::Kiv,
        walk: Walk::Down,
    });
    assert_eq!(search.wants(), kiv_down);
    search.take(scored(9, 900));
    assert_eq!(search.wants(), kiv_down, "an improvement goes on");
    search.take(scored(8, 899));
    assert_eq!(
        search.wants(),
        Some(Trial::Step {
            field: GainField::Kpv,
            walk: Walk::Down
        }),
        "down helped, so up is not tried"
    );
    search.take(TrialEnd::RanAway);
    assert_eq!(
        search.wants(),
        Some(Trial::Step {
            field: GainField::Kpv,
            walk: Walk::Up
        })
    );
    search.take(scored(12, 500));
    search.take(TrialEnd::OutOfRange);
    assert_eq!(search.phase, GainPhase::Done);
    assert_eq!((search.best.gains, search.best.score), (12, 500));
    assert_eq!((search.before.gains, search.before.score), (10, 1000));
    let mut search = GainSearch::new(10);
    search.take(TrialEnd::RanAway);
    assert_eq!(search.phase, GainPhase::RunsAway);
    assert_eq!(search.wants(), None);
    assert_eq!(
        runs_away_message(3),
        "J4 runs away on its configured gains"
    );
}

#[test]
fn a_trial_scores_its_worst_move_and_sane_gains_come_back() {
    let mv = |complete, score| TrialMove { complete, score };
    assert_eq!(trial_score(&[mv(true, 3), mv(true, 7)]), Some(7));
    assert_eq!(trial_score(&[mv(true, 3), mv(false, 7)]), None);
    let mut book = GainBook {
        current: 1,
        sane: None,
    };
    book.begin(2);
    book.end(false);
    assert_eq!((book.current, book.sane), (1, Some(1)));
    book.begin(3);
    book.end(true);
    assert_eq!((book.current, book.sane), (3, Some(3)));
    let gains = LoopGains { kpv: 1, kiv: 2 };
    assert_eq!(GainField::Kiv.get(&gains), 2);
    assert_eq!(
        GainField::Kpv.with(gains, 9),
        LoopGains { kpv: 9, kiv: 2 }
    );
}

fn ticks(short: u64, long: u64) -> ProbeTicks {
    ProbeTicks { short, long }
}

#[test]
fn limits_climb_to_the_last_step_that_passes() {
    let mut search = LimitSearch::new();
    assert_eq!(search.level(), Some(0));
    search.observe(Observed::Probed { passed: true });
    assert_eq!(search.level(), Some(1));
    let faster = Observed::Compared {
        now: ticks(10, 20),
        next: ticks(9, 20),
        at_ceiling: false,
    };
    search.observe(faster);
    search.observe(Observed::Probed { passed: true });
    search.observe(faster);
    search.observe(Observed::Probed { passed: false });
    assert_eq!(
        search.phase,
        LimitPhase::Done {
            found: Some(Found {
                level: 1,
                jerk_measured: true
            })
        }
    );
    assert_eq!(search.level(), None);
}

#[test]
fn a_step_that_changes_nothing_ends_the_climb_without_measuring_the_jerk() {
    for at_ceiling in [false, true] {
        let mut search = LimitSearch::new();
        search.observe(Observed::Probed { passed: true });
        search.observe(Observed::Compared {
            now: ticks(10, 20),
            next: ticks(10, 20),
            at_ceiling,
        });
        assert_eq!(
            search.phase,
            LimitPhase::Done {
                found: Some(Found {
                    level: 0,
                    jerk_measured: at_ceiling
                })
            }
        );
    }
}

#[test]
fn limits_step_down_as_far_as_two_fifths() {
    let mut search = LimitSearch::new();
    let mut levels = Vec::new();
    while let Some(level) = search.level() {
        levels.push(level);
        search.observe(Observed::Probed { passed: false });
    }
    assert_eq!(levels, [0, -1, -2, -3, -4]);
    assert_eq!(search.phase, LimitPhase::Done { found: None });
    assert!(may_descend(4) && !may_descend(5));
    let mut search = LimitSearch::new();
    search.observe(Observed::Probed { passed: false });
    search.observe(Observed::Probed { passed: true });
    assert_eq!(
        search.phase,
        LimitPhase::Done {
            found: Some(Found {
                level: -1,
                jerk_measured: true
            })
        }
    );
}

#[test]
fn a_probe_is_judged_move_by_move() {
    let good = ProbeScore {
        complete: true,
        strayed: false,
        overloaded: false,
        rippled: false,
    };
    let bad = ProbeScore {
        complete: false,
        strayed: true,
        overloaded: true,
        rippled: true,
    };
    let mut probe = Probe::new();
    let mut targets = Vec::new();
    while let Some(next) = probe.next() {
        targets.push((next.target, next.scored));
        // What is not scored is not judged.
        probe.moved(if next.scored { good } else { bad });
    }
    assert_eq!(
        targets,
        [
            (ProbeTarget::Short, true),
            (ProbeTarget::Home, true),
            (ProbeTarget::Low, false),
            (ProbeTarget::High, true),
            (ProbeTarget::Low, true),
        ]
    );
    assert_eq!(probe.state, ProbeState::Passed);
    let failures = [
        (bad, StepFailure::Incomplete, "did not complete"),
        (
            ProbeScore {
                complete: true,
                ..bad
            },
            StepFailure::Tracking,
            "tracking",
        ),
        (
            ProbeScore {
                overloaded: true,
                rippled: true,
                ..good
            },
            StepFailure::Current,
            "current",
        ),
        (
            ProbeScore {
                rippled: true,
                ..good
            },
            StepFailure::Ripple,
            "ripple",
        ),
    ];
    for (score, why, word) in failures {
        let mut probe = Probe::new();
        probe.moved(score);
        assert_eq!(probe.state, ProbeState::Failed { why });
        assert_eq!(why.name(), word);
        assert_eq!(probe.next(), None);
    }
    let mut reach = Reach::new();
    reach.step(true, true);
    reach.step(true, false);
    reach.step(true, true);
    assert_eq!((reach.steps, reach.ended), (1, true));
}

#[test]
fn joints_that_hold_the_arm_up_park_last() {
    assert_eq!(
        parking_order(&[false, true, true, false, false, false]),
        [0, 3, 4, 5, 1, 2]
    );
    assert_eq!(park_plan(false, true, 10, 11), ParkPlan::Stay);
    assert_eq!(park_plan(false, true, 10, 12), ParkPlan::Return);
    assert_eq!(
        park_plan(false, false, i32::MIN, i32::MAX),
        ParkPlan::Return
    );
    assert_eq!(park_plan(true, true, 0, 0), ParkPlan::Endstop);
    assert_eq!(park_plan(true, false, 0, 0), ParkPlan::ParkPose);
    assert_eq!(
        not_returned_message(4),
        "J5 did not return to its starting position"
    );
}

#[test]
fn a_resting_joint_is_parked_blind_once_before_it_counts_as_failed() {
    let rests = [false, true];
    let mut parking: Parking<&str> = Parking::new(&rests);
    let turn = parking.turn().unwrap();
    assert_eq!((turn.joint, turn.blind), (0, false));
    assert!(parking.parked(Err("first"), true, rests[0]));
    assert!(!parking.parked(Err("second"), true, rests[1]));
    let turn = parking.turn().unwrap();
    assert_eq!((turn.joint, turn.blind), (1, true));
    assert!(!parking.may_release(true), "a joint still has its turn");
    assert!(parking.parked(Err("third"), true, rests[1]));
    assert!(parking.turn().is_none());
    assert!(!parking.may_release(false));
    assert!(parking.may_release(true));
    assert_eq!(
        kept_message(),
        "parking failed and release_on_failure is false"
    );
    assert_eq!(parking.released(Err("release")), Err("third"));
    let parking: Parking<&str> = Parking::new(&[]);
    assert!(parking.may_release(false));
    assert_eq!(parking.released(Err("release")), Err("release"));
}

#[test]
fn draws_repeat() {
    let mut draw = Draw::new();
    let mut seed = 0x2545_F491_4F6C_DD1Du64;
    for _ in 0..100 {
        seed ^= seed << 13;
        seed ^= seed >> 7;
        seed ^= seed << 17;
        let n = draw.next();
        assert_eq!(n, seed >> 11);
        let unit = n as f64 / (1u64 << 53) as f64;
        assert!((0.0..1.0).contains(&unit));
    }
}

#[test]
fn the_most_informative_reachable_candidate_is_picked() {
    let gains = [Some(3), None, Some(9), Some(9), Some(-2)];
    assert_eq!(best_candidate(&gains, &[false; 5]), Some(2));
    assert_eq!(
        best_candidate(&gains, &[false, false, true, false, false]),
        Some(3)
    );
    assert_eq!(
        best_candidate(&gains, &[true, false, true, true, false]),
        Some(4)
    );
    assert_eq!(best_candidate(&gains, &[true, false, true, true, true]), None);
    assert_eq!(nearest(&[5, 2, 7, 2]), 1);
    let mut round = PickRound::new(gains.to_vec());
    let mut tried = Vec::new();
    while let Some(i) = round.next() {
        tried.push(i);
        // A sweep may end at the first leg that is not clear.
        round.answer(i, &[true, false]);
    }
    assert_eq!(tried, [2, 3, 0, 4]);
    assert_eq!(round.picked, None);
    let mut round = PickRound::new(gains.to_vec());
    round.answer(2, &[true, true, true, false]);
    assert_eq!(round.next(), Some(3));
    round.answer(3, &[true; 4]);
    assert_eq!((round.picked, round.next()), (Some(3), None));
}

/// A round over some candidates that picks one, or none.
fn round_for(candidates: usize, choice: Option<usize>) -> PickRound {
    let gains = (0..candidates).map(|i| (Some(i) == choice).then_some(1)).collect();
    let mut round = PickRound::new(gains);
    if let Some(i) = round.next() {
        round.answer(i, &[true; 4]);
    }
    round
}

#[test]
fn a_plan_is_drawn_picked_arranged_and_swept() {
    let mut plan = Planner::new(3);
    let mut n = 0u32;
    while plan.phase == PlanPhase::Draw {
        plan.draw(n, true, n % 2 == 0);
        n += 1;
    }
    assert_eq!(plan.phase, PlanPhase::Pick);
    assert_eq!(plan.candidates.len(), CANDIDATES);
    plan.pick(&round_for(plan.candidates.len(), Some(5)));
    assert_eq!(plan.candidates[5], 598, "the last takes its place");
    plan.pick(&round_for(plan.candidates.len(), Some(0)));
    plan.pick(&round_for(plan.candidates.len(), Some(1)));
    assert_eq!(plan.picked, [10, 0, 2]);
    plan.arrange(&[10, 0, 2]);
    plan.arrange(&[8, 2]);
    plan.arrange(&[8]);
    assert_eq!(plan.ordered, [0, 2, 10]);
    assert_eq!(plan.phase, PlanPhase::SweepNearest);
    plan.swept(false);
    plan.swept(true);
    assert_eq!(plan.phase, PlanPhase::VisitPicked);
}

#[test]
fn a_plan_that_cannot_be_made_says_why() {
    let mut plan = Planner::new(2);
    for n in 0..DRAWS {
        assert_eq!(plan.phase, PlanPhase::Draw);
        plan.draw(n, n == 7, true);
    }
    let few = PlanError::TooFew {
        found: 1,
        wanted: 2,
    };
    assert_eq!(plan.phase, PlanPhase::Failed { error: few });
    assert_eq!(
        few.message(),
        "only 1 of the 2 identification poses wanted cleared the limits, the collision world and \
         the holding budget"
    );
    let mut plan = Planner::new(2);
    for n in 0..CANDIDATES {
        plan.draw(n, true, true);
    }
    plan.pick(&round_for(plan.candidates.len(), Some(3)));
    plan.pick(&round_for(plan.candidates.len(), None));
    let lost = PlanError::Unreachable { after: 1 };
    assert_eq!(plan.phase, PlanPhase::Failed { error: lost });
    assert_eq!(
        lost.message(),
        "no candidate pose can be reached from identification pose 1"
    );
    assert_eq!(
        PlanError::NoOrder.message(),
        "no visiting order of the identification poses is clear of the collision world, the \
         return to the ready pose included"
    );
    assert_eq!(
        no_travel_message(1, "0.05"),
        "J2 has no travel left once its 0.05 rad approach offsets are allowed for"
    );
}

#[test]
fn every_leg_that_is_driven_is_swept() {
    let leg = |from, to| Leg { from, to };
    assert_eq!(
        visit_legs(2),
        [
            leg(Stop::Ready, Stop::Below(0)),
            leg(Stop::Below(0), Stop::Pose(0)),
            leg(Stop::Pose(0), Stop::Below(1)),
            leg(Stop::Below(1), Stop::Pose(1)),
            leg(Stop::Pose(1), Stop::Ready),
        ]
    );
    assert_eq!(
        measure_legs(Stop::Ready, 4),
        [
            leg(Stop::Ready, Stop::Below(4)),
            leg(Stop::Below(4), Stop::Pose(4)),
            leg(Stop::Pose(4), Stop::Above(4)),
            leg(Stop::Above(4), Stop::Pose(4)),
        ]
    );
}

fn run_options() -> RunOptions {
    RunOptions {
        limits: false,
        limits_only: false,
        gains: false,
        gains_only: false,
        sim: false,
        apply: false,
    }
}

#[test]
fn a_run_does_its_stages_and_always_shuts_down() {
    let all = RunOptions {
        limits: true,
        gains: true,
        ..run_options()
    };
    assert_eq!(
        all.plan(),
        [
            Stage::Initialize,
            Stage::Home,
            Stage::Mechanics,
            Stage::Identify,
            Stage::Gains,
            Stage::Limits,
        ]
    );
    assert!(!run_options().needs_spans());
    let only = RunOptions {
        limits_only: true,
        ..run_options()
    };
    assert!(only.needs_spans());
    assert_eq!(only.plan(), [Stage::Initialize, Stage::Home, Stage::Limits]);
    let mut run = Run::new(&only);
    run.took(Ok(()));
    run.took(Err("no reference"));
    assert_eq!(run.stage(), None, "what is left of the stages is skipped");
    run.took(Err("lost"));
    assert_eq!(run.parking(), "FAILED");
    run.took(Ok(()));
    assert_eq!(run.result(), Err("no reference"));
    let mut run: Run<&str> = Run::new(&only);
    for _ in 0..5 {
        run.took(Ok(()));
    }
    assert_eq!(run.parking(), "completed");
    assert_eq!(run.result(), Ok(()));
}

#[test]
fn results_are_written_only_where_they_are_the_arms() {
    let asked = RunOptions {
        apply: true,
        ..run_options()
    };
    assert_eq!(apply(&run_options(), false), Apply::Keep);
    assert_eq!(apply(&asked, false), Apply::Write { backup: true });
    assert_eq!(apply(&asked, true), Apply::Write { backup: false });
    let sim = RunOptions { sim: true, ..asked };
    assert_eq!(apply(&sim, false), Apply::Refuse);
    assert_eq!(
        refusal(),
        "--apply writes masses fitted to the simulator; refusing"
    );
    assert!(valid_cpu(0, 1024) && valid_cpu(1023, 1024));
    assert!(!valid_cpu(-1, 1024) && !valid_cpu(1024, 1024));
    assert_eq!(
        scaled_joints(&[false, false, true, false, true, false]),
        [3, 5]
    );
}
