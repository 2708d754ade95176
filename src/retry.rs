use vstd::prelude::*;
use crate::geometry::Size;
use crate::grid::Grid;
use crate::image_patterns::{ImagePatterns, Wave};

verus! {

/// Every attempt of the solving engine ended in a contradiction.
#[derive(Clone, Copy, Debug, PartialEq, Eq, Structural)]
pub struct PropagateError;

/// Retry until an attempt succeeds.
#[derive(Clone, Copy, Debug, PartialEq, Eq, Structural)]
pub struct Forever;

/// Make at most this many attempts, one after another.
#[derive(Clone, Copy, Debug, PartialEq, Eq, Structural)]
pub struct NumTimes(pub usize);

/// Make at most this many attempts, spread over workers.
#[derive(Clone, Copy, Debug, PartialEq, Eq, Structural)]
pub struct ParNumTimes(pub usize);

/// How many attempts of the solving engine to make, and what a run of them
/// returns. The caller asks `should_attempt` before each attempt, with the
/// number of contradictions so far; it finishes with `solved` on the first
/// success, or with `exhausted` once no attempt is left.
pub trait Retry {
    type Return;

    spec fn allows_attempt(&self, failures: nat) -> bool;

    spec fn is_solved(r: Self::Return, wave: Wave) -> bool;

    spec fn is_exhausted(r: Self::Return) -> bool;

    fn should_attempt(&self, failures: usize) -> (r: bool)
        ensures
            r == self.allows_attempt(failures as nat),
    ;

    fn solved(wave: Wave) -> (r: Self::Return)
        ensures
            Self::is_solved(r, wave),
    ;

    fn exhausted(&self, failures: usize) -> (r: Self::Return)
        requires
            !self.allows_attempt(failures as nat),
        ensures
            Self::is_exhausted(r),
    ;
}

/// Turns what a run of attempts returned into an image, or the error.
pub trait ImageRetry: Retry {
    type ImageReturn;

    /// Every pattern that `r` names belongs to `p`.
    spec fn fits(r: Self::Return, p: ImagePatterns) -> bool;

    spec fn is_image_return(r: Self::Return, p: ImagePatterns, out: Self::ImageReturn) -> bool;

    fn image_return(r: Self::Return, image_patterns: &ImagePatterns) -> (out: Self::ImageReturn)
        requires
            image_patterns.wf(),
            Self::fits(r, *image_patterns),
        ensures
            Self::is_image_return(r, *image_patterns, out),
    ;
}

impl Retry for Forever {
    type Return = Wave;

    open spec fn allows_attempt(&self, failures: nat) -> bool {
        true
    }

    open spec fn is_solved(r: Wave, wave: Wave) -> bool {
        r == wave
    }

    open spec fn is_exhausted(r: Wave) -> bool {
        false
    }

    fn should_attempt(&self, failures: usize) -> (r: bool) {
        true
    }

    fn solved(wave: Wave) -> (r: Wave) {
        wave
    }

    fn exhausted(&self, failures: usize) -> (r: Wave) {
        Wave { size: Size::new(0, 0), cells: Vec::new() }
    }
}

impl Retry for NumTimes {
    type Return = Result<Wave, PropagateError>;

    open spec fn allows_attempt(&self, failures: nat) -> bool {
        failures < self.0
    }

    open spec fn is_solved(r: Result<Wave, PropagateError>, wave: Wave) -> bool {
        r == Ok::<Wave, PropagateError>(wave)
    }

    open spec fn is_exhausted(r: Result<Wave, PropagateError>) -> bool {
        r == Err::<Wave, PropagateError>(PropagateError)
    }

    fn should_attempt(&self, failures: usize) -> (r: bool) {
        failures < self.0
    }

    fn solved(wave: Wave) -> (r: Result<Wave, PropagateError>) {
        Ok(wave)
    }

    fn exhausted(&self, failures: usize) -> (r: Result<Wave, PropagateError>) {
        Err(PropagateError)
    }
}

impl Retry for ParNumTimes {
    type Return = Result<Wave, PropagateError>;

    open spec fn allows_attempt(&self, failures: nat) -> bool {
        failures < self.0
    }

    open spec fn is_solved(r: Result<Wave, PropagateError>, wave: Wave) -> bool {
        r == Ok::<Wave, PropagateError>(wave)
    }

    open spec fn is_exhausted(r: Result<Wave, PropagateError>) -> bool {
        r == Err::<Wave, PropagateError>(PropagateError)
    }

    fn should_attempt(&self, failures: usize) -> (r: bool) {
        failures < self.0
    }

    fn solved(wave: Wave) -> (r: Result<Wave, PropagateError>) {
        Ok(wave)
    }

    fn exhausted(&self, failures: usize) -> (r: Result<Wave, PropagateError>) {
        Err(PropagateError)
    }
}

impl ImageRetry for Forever {
    type ImageReturn = Grid;

    open spec fn fits(r: Wave, p: ImagePatterns) -> bool {
        r.wf() && r.ids_below(p.num_patterns())
    }

    open spec fn is_image_return(r: Wave, p: ImagePatterns, out: Grid) -> bool {
        p.renders(r, out)
    }

    fn image_return(r: Wave, image_patterns: &ImagePatterns) -> (out: Grid) {
        image_patterns.image_from_wave(&r)
    }
}

impl ImageRetry for NumTimes {
    type ImageReturn = Result<Grid, PropagateError>;

    open spec fn fits(r: Result<Wave, PropagateError>, p: ImagePatterns) -> bool {
        r matches Ok(w) ==> w.wf() && w.ids_below(p.num_patterns())
    }

    open spec fn is_image_return(r: Result<Wave, PropagateError>, p: ImagePatterns, out: Result<Grid, PropagateError>) -> bool {
        match r {
            Ok(w) => out matches Ok(g) && p.renders(w, g),
            Err(e) => out == Err::<Grid, PropagateError>(e),
        }
    }

    fn image_return(r: Result<Wave, PropagateError>, image_patterns: &ImagePatterns) -> (out: Result<Grid, PropagateError>) {
        match r {
            Ok(w) => Ok(image_patterns.image_from_wave(&w)),
            Err(e) => Err(e),
        }
    }
}

impl ImageRetry for ParNumTimes {
    type ImageReturn = Result<Grid, PropagateError>;

    open spec fn fits(r: Result<Wave, PropagateError>, p: ImagePatterns) -> bool {
        r matches Ok(w) ==> w.wf() && w.ids_below(p.num_patterns())
    }

    open spec fn is_image_return(r: Result<Wave, PropagateError>, p: ImagePatterns, out: Result<Grid, PropagateError>) -> bool {
        match r {
            Ok(w) => out matches Ok(g) && p.renders(w, g),
            Err(e) => out == Err::<Grid, PropagateError>(e),
        }
    }

    fn image_return(r: Result<Wave, PropagateError>, image_patterns: &ImagePatterns) -> (out: Result<Grid, PropagateError>) {
        match r {
            Ok(w) => Ok(image_patterns.image_from_wave(&w)),
            Err(e) => Err(e),
        }
    }
}

/// A bound of zero attempts allows none: the run fails at once with a
/// contradiction, and the solving engine is never asked.
pub proof fn lemma_zero_attempts_fail_at_once(p: NumTimes, r: Result<Wave, PropagateError>)
    requires
        p.0 == 0,
        NumTimes::is_exhausted(r),
    ensures
        !p.allows_attempt(0),
        r == Err::<Wave, PropagateError>(PropagateError),
{
}

} // verus!
