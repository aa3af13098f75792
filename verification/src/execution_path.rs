//! The points a planned path is checked at, up to a budget.
use vstd::prelude::*;

verus! {

/// Points a path may have.
pub const MAX_POINTS: usize = 1_000_000;

/// Why a path cannot be checked.
#[derive(Clone, Copy, Debug, PartialEq, Eq, Structural)]
pub enum PathError {
    /// It does not start at finite values, or its ticks have no duration.
    InitialState,
    /// A later sample is not finite.
    NotFinite,
    /// It has too many points.
    TooManyPoints,
}

impl PathError {
    /// Why, in words.
    pub fn reason(self) -> (r: &'static str)
        ensures
            r@ == (match self {
                PathError::InitialState =>
                    "initial state must be finite and tick duration positive"@,
                PathError::NotFinite => "position and velocity must be finite"@,
                PathError::TooManyPoints =>
                    "interpolated path exceeds the collision-check point limit"@,
            }),
    {
        match self {
            PathError::InitialState => "initial state must be finite and tick duration positive",
            PathError::NotFinite => "position and velocity must be finite",
            PathError::TooManyPoints => "interpolated path exceeds the collision-check point limit",
        }
    }
}

/// What is known of a sample before it is used.
#[derive(Clone, Copy, Debug, PartialEq, Eq, Structural)]
pub struct SampleCheck {
    /// Whether its values are finite.
    pub finite: bool,
    /// Whether its tick's duration is finite and positive.
    pub timed: bool,
    /// Whether the travel to it could be more than the budget covers, or is not
    /// finite.
    pub endless: bool,
}

/// Whether a path may start at a sample.
pub fn check_first(sample: SampleCheck) -> (r: Result<(), PathError>)
    ensures
        r == (if sample.finite && sample.timed {
            Ok::<(), PathError>(())
        } else {
            Err(PathError::InitialState)
        }),
{
    if sample.finite && sample.timed {
        Ok(())
    } else {
        Err(PathError::InitialState)
    }
}

/// Whether a path may go on to a sample.
pub fn check_next(sample: SampleCheck) -> (r: Result<(), PathError>)
    ensures
        r == (if !sample.finite {
            Err::<(), PathError>(PathError::NotFinite)
        } else if sample.endless {
            Err(PathError::TooManyPoints)
        } else {
            Ok(())
        }),
{
    if !sample.finite {
        Err(PathError::NotFinite)
    } else if sample.endless {
        Err(PathError::TooManyPoints)
    } else {
        Ok(())
    }
}

/// The samples that follow the first one used: all of them where the path
/// starts before the first, else those after it.
pub fn first_next(starts_before: bool) -> (r: usize)
    ensures
        r == (if starts_before {
            0int
        } else {
            1
        }),
{
    if starts_before {
        0
    } else {
        1
    }
}

/// The points of a path; `Q` is a pose.
#[derive(Debug)]
pub struct PathPoints<Q> {
    /// The points.
    pub points: Vec<Q>,
}

impl<Q> PathPoints<Q> {
    /// Whether the path is within its budget.
    pub open spec fn valid(self) -> bool {
        self.points@.len() <= MAX_POINTS
    }

    /// A path that starts at `q`.
    pub fn new(q: Q) -> (r: PathPoints<Q>)
        ensures
            r.points@ == seq![q],
            r.valid(),
    {
        let mut points: Vec<Q> = Vec::new();
        points.push(q);
        assert(points@ =~= seq![q]);
        PathPoints { points }
    }

    /// Add a point, as long as the budget lasts.
    pub fn push(&mut self, q: Q) -> (r: Result<(), PathError>)
        requires
            old(self).valid(),
        ensures
            final(self).valid(),
            old(self).points@.len() < MAX_POINTS ==> r == Ok::<(), PathError>(()),
            old(self).points@.len() < MAX_POINTS ==> final(self).points@ == old(
                self,
            ).points@.push(q),
            old(self).points@.len() >= MAX_POINTS ==> r == Err::<(), PathError>(
                PathError::TooManyPoints,
            ) && final(self).points@ == old(self).points@,
    {
        if self.points.len() >= MAX_POINTS {
            return Err(PathError::TooManyPoints);
        }
        self.points.push(q);
        Ok(())
    }
}

} // verus!
