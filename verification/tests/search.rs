//! The search for the passing band of a gain scale.
use par6d::selfcal::search::{Search, Stop, Verdict, Want};

/// The violation of a failing experiment, or a pass.
#[derive(Clone, Copy)]
enum Trial {
    Pass,
    Fail { oscillating: bool, violation: f64 },
    Contact,
}

struct Outcome {
    operating: Option<f64>,
    stop: Stop,
    best_fail: Option<f64>,
}

/// Run a search whose scales are floating-point ratios.
fn bracket(
    step: f64,
    floor: f64,
    ceiling: f64,
    resolution: f64,
    budget: usize,
    evaluate: &mut dyn FnMut(f64) -> Trial,
) -> Outcome {
    let start = 1.0_f64.clamp(floor, ceiling);
    let mut search = Search::new(
        (floor * (1.0 - 1e-9)).to_bits(),
        (ceiling * (1.0 + 1e-9)).to_bits(),
        start.to_bits(),
        budget,
    );
    while let Some(want) = search.want() {
        let (scale, close) = match want {
            Want::Start => (start, false),
            Want::Walk { from, up, turned } => {
                let ratio = match (up, turned) {
                    (true, false) => step,
                    (true, true) => 1.0 / (1.0 / step),
                    (false, _) => 1.0 / step,
                };
                (f64::from_bits(from) * ratio, false)
            }
            Want::Above(s) => (f64::from_bits(s) * step, false),
            Want::Below(s) => (f64::from_bits(s) / step, false),
            Want::Between(a, b) => {
                let (a, b) = (f64::from_bits(a), f64::from_bits(b));
                ((a * b).sqrt(), a.max(b) / a.min(b) <= resolution)
            }
        };
        if search.propose(scale.to_bits(), close) {
            let verdict = match evaluate(scale) {
                Trial::Pass => Verdict::Pass,
                Trial::Fail {
                    oscillating,
                    violation,
                } => Verdict::Fail {
                    oscillating,
                    violation: violation.to_bits(),
                },
                Trial::Contact => Verdict::Interrupted,
            };
            search.record(scale.to_bits(), verdict);
        }
    }
    Outcome {
        operating: search.operating().map(f64::from_bits),
        stop: search.stop().expect("a search that wants nothing is over"),
        best_fail: search.band.best_fail.map(|(s, _)| f64::from_bits(s)),
    }
}

/// A passing band; outside it the violation grows with the ratio distance from
/// the band, and the hold fails above it.
fn band(low: f64, high: f64, scale: f64) -> Trial {
    if scale >= low && scale <= high {
        Trial::Pass
    } else {
        Trial::Fail {
            oscillating: scale > high,
            violation: (scale / high).ln().max((low / scale).ln()),
        }
    }
}

#[test]
fn brackets_a_band_from_inside_and_from_both_failing_sides() {
    for start_ratio in [1.0, 0.5, 3.0] {
        let edges = (0.9 / start_ratio, 1.6 / start_ratio);
        let mut count = 0;
        let outcome = bracket(1.25, 0.4, 2.5, 1.1, 30, &mut |scale| {
            count += 1;
            band(edges.0, edges.1, scale)
        });
        let operating = outcome.operating.expect("band found");
        let expected = (f64::max(edges.0, 0.4) * f64::min(edges.1, 2.5)).sqrt();
        assert!(
            (operating / expected - 1.0).abs() < 0.12,
            "start x{start_ratio}: operating {operating} vs midpoint {expected}"
        );
        assert!(count <= 16, "start x{start_ratio} used {count} experiments");
    }
}

#[test]
fn a_passing_start_with_a_step_of_margin_each_way_is_kept() {
    let mut count = 0;
    let outcome = bracket(1.25, 0.4, 2.5, 1.1, 30, &mut |scale| {
        count += 1;
        band(0.7, 1.4, scale)
    });
    assert_eq!(outcome.operating, Some(1.0));
    assert_eq!(count, 3, "start, one step up, one step down");
}

#[test]
fn motion_oscillation_with_a_quiet_hold_turns_the_walk_around() {
    let mut scales = Vec::new();
    let outcome = bracket(1.25, 0.4, 2.5, 1.1, 30, &mut |scale: f64| {
        scales.push(scale);
        if (0.45..=0.7).contains(&scale) {
            Trial::Pass
        } else {
            Trial::Fail {
                oscillating: false,
                violation: (scale / 0.7).ln().abs(),
            }
        }
    });
    assert!(outcome.operating.is_some());
    assert_eq!(scales[..3], [1.0, 1.25, 0.8], "one step up, then reverse");
}

#[test]
fn a_line_without_a_band_stops_at_its_minimum() {
    let mut count = 0;
    let outcome = bracket(1.25, 0.4, 2.5, 1.1, 30, &mut |scale: f64| {
        count += 1;
        Trial::Fail {
            oscillating: scale > 0.6,
            violation: 0.5 + (scale / 0.6).ln().abs(),
        }
    });
    assert!(matches!(outcome.stop, Stop::NoPass));
    assert!(count <= 5, "used {count} experiments");
    let best = outcome.best_fail.expect("a failure was noted");
    assert!((best - 0.64).abs() < 1e-9, "least violating at {best}");
}

#[test]
fn reports_no_pass_and_budget_exhaustion_without_accepting() {
    let outcome = bracket(1.25, 0.4, 2.5, 1.1, 2, &mut |scale| band(0.5, 3.0, scale));
    assert!(outcome.operating.is_none());
    assert!(matches!(outcome.stop, Stop::Budget));
}

#[test]
fn a_noisy_midpoint_is_not_accepted() {
    let outcome = bracket(1.25, 0.4, 2.5, 1.1, 30, &mut |scale: f64| {
        let inside = (1.3..=2.4).contains(&scale) && !(1.70..1.80).contains(&scale);
        if inside {
            Trial::Pass
        } else {
            Trial::Fail {
                oscillating: scale > 2.4,
                violation: (scale / 2.4).ln().max((1.3 / scale).ln()).max(0.1),
            }
        }
    });
    assert!(outcome.operating.is_none());
    assert!(matches!(outcome.stop, Stop::VerificationFailed));
}

#[test]
fn contact_ends_a_search_wherever_it_is() {
    for at in 0..3 {
        let mut count = 0;
        let outcome = bracket(1.25, 0.4, 2.5, 1.1, 30, &mut |scale| {
            count += 1;
            if count == at + 1 {
                Trial::Contact
            } else {
                band(0.7, 1.4, scale)
            }
        });
        assert!(matches!(outcome.stop, Stop::Interrupted));
        assert!(outcome.operating.is_none());
    }
}

#[test]
fn every_end_of_a_search_has_its_reason() {
    assert_eq!(Stop::Verified.reason(), "verified");
    assert_eq!(Stop::Interrupted.reason(), "interrupted by contact");
    assert_eq!(
        Stop::NoPass.reason(),
        "no gain scale within the bounds met the requirements"
    );
    assert_eq!(
        Stop::Budget.reason(),
        "the experiment budget ran out before the band was bracketed"
    );
    assert_eq!(
        Stop::VerificationFailed.reason(),
        "the midpoint of the measured band failed its confirming experiment"
    );
}
