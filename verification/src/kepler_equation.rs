//! Control of the solution of Kepler's equation.
//!
//! Solving `E - e sin E = M` (or its hyperbolic form) for the anomaly `E` is
//! an iteration in floating point. What is decided here is everything around
//! the arithmetic: which inputs have a closed-form answer, which regime the
//! others fall in, on which side of the mean anomaly the elliptic seed lies,
//! and when the iteration stops, converged or out of budget.

use vstd::prelude::*;
use crate::binary64::Binary64;
use crate::binary64::ONE_BITS;
use crate::binary64::lemma_rounds;
use crate::binary64::lemma_scaled_magnitude_increases;
use crate::binary64::lemma_pow2_values;

verus! {

/// The pattern of `1e-16`: a correction or residual below it ends the iteration.
pub const TOLERANCE_BITS: u64 = 0x3c9c_d2b2_97d8_89bc;

/// The pattern of `0.85`: the elliptic seed is the mean anomaly moved by this
/// multiple of the eccentricity.
pub const SEED_FACTOR_BITS: u64 = 0x3feb_3333_3333_3333;

/// The pattern of `-0.85`.
pub const MINUS_SEED_FACTOR_BITS: u64 = 0xbfeb_3333_3333_3333;

/// Corrections allowed to the elliptic iteration.
pub const ELLIPTIC_BUDGET: u32 = 10;

/// Newton steps allowed to the hyperbolic iteration.
pub const HYPERBOLIC_BUDGET: u32 = 100;

/// The shape of the problem for one pair of eccentricity and mean anomaly.
#[derive(Clone, Copy, Debug, PartialEq, Eq, Structural)]
pub enum Regime {
    /// Eccentricity zero: the anomaly is the mean anomaly.
    Circular,
    /// Mean anomaly zero on a non-circular orbit: the anomaly is zero.
    Pericenter,
    /// Eccentricity below one: the third-order elliptic iteration.
    Elliptic,
    /// Anything else, a NaN eccentricity included: the hyperbolic Newton iteration.
    Hyperbolic,
}

/// Where an iteration stands.
#[derive(Clone, Copy, Debug, PartialEq, Eq, Structural)]
pub enum Status {
    /// Another correction is due.
    Running,
    /// The last correction met the tolerance, or the answer was closed-form.
    Converged,
    /// The budget is spent and the tolerance was never met.
    Exhausted,
}

/// The tolerance as a value.
pub open spec fn tolerance() -> Binary64 {
    Binary64 { bits: TOLERANCE_BITS }
}

/// The regime of `(e, m)`; the closed forms come first, the circular one before
/// the other.
pub open spec fn regime_of(e: Binary64, m: Binary64) -> Regime {
    if e.zero() {
        Regime::Circular
    } else if m.zero() {
        Regime::Pericenter
    } else if e.less(Binary64 { bits: ONE_BITS }) {
        Regime::Elliptic
    } else {
        Regime::Hyperbolic
    }
}

/// The anomaly where it needs no iteration: the mean anomaly itself on a
/// circular orbit, positive zero at pericenter.
pub open spec fn closed_form(e: Binary64, m: Binary64) -> Option<Binary64> {
    match regime_of(e, m) {
        Regime::Circular => Some(m),
        Regime::Pericenter => Some(Binary64 { bits: 0 }),
        _ => None,
    }
}

/// The number of corrections a regime may take.
pub open spec fn budget_of(regime: Regime) -> nat {
    match regime {
        Regime::Elliptic => ELLIPTIC_BUDGET as nat,
        Regime::Hyperbolic => HYPERBOLIC_BUDGET as nat,
        _ => 0,
    }
}

/// Whether a correction `delta` (elliptic) or a residual (hyperbolic) meets
/// the tolerance: its absolute value is below `1e-16`. A NaN never does.
pub open spec fn within_tolerance(measure: Binary64) -> bool {
    !measure.nan() && -tolerance().scaled() < measure.scaled() < tolerance().scaled()
}

pub fn classify(e: Binary64, m: Binary64) -> (regime: Regime)
    ensures
        regime == regime_of(e, m),
{
    if e.is_zero() {
        Regime::Circular
    } else if m.is_zero() {
        Regime::Pericenter
    } else if e.lt(Binary64::from_bits(ONE_BITS)) {
        Regime::Elliptic
    } else {
        Regime::Hyperbolic
    }
}

/// The answer for the inputs that have one without iterating.
pub fn closed_form_solution(e: Binary64, m: Binary64) -> (out: Option<Binary64>)
    ensures
        out == closed_form(e, m),
        e.zero() ==> out == Some(m),
        m.zero() ==> out is Some && out->0.zero(),
{
    match classify(e, m) {
        Regime::Circular => Some(m),
        Regime::Pericenter => Some(Binary64::zero_value()),
        _ => None,
    }
}

/// The factor `k` of the elliptic seed `M + k e`: `-0.85` where the sine of
/// the mean anomaly is negative, `0.85` elsewhere (a NaN sine included).
pub open spec fn seed_factor_of(sin_m: Binary64) -> Binary64 {
    if sin_m.less(Binary64 { bits: 0 }) {
        Binary64 { bits: MINUS_SEED_FACTOR_BITS }
    } else {
        Binary64 { bits: SEED_FACTOR_BITS }
    }
}

/// The factor of the elliptic seed for a mean anomaly of sine `sin_m`.
pub fn seed_factor(sin_m: Binary64) -> (k: Binary64)
    ensures
        k == seed_factor_of(sin_m),
{
    let k: Binary64 = Binary64::from_bits(SEED_FACTOR_BITS);
    if sin_m.lt(Binary64::zero_value()) {
        k.neg()
    } else {
        k
    }
}

/// Whether `measure` ends the iteration.
pub fn meets_tolerance(measure: Binary64) -> (r: bool)
    ensures
        r == within_tolerance(measure),
        measure.zero() ==> r,
{
    proof {
        lemma_scaled_magnitude_increases(0, TOLERANCE_BITS as nat);
    }
    let magnitude: Binary64 = measure.abs();
    magnitude.lt(Binary64::from_bits(TOLERANCE_BITS))
}

/// Where a solve stands, as contracts speak of it.
pub struct Progress {
    pub regime: Regime,
    /// Corrections recorded so far.
    pub steps: nat,
    pub status: Status,
}

impl Progress {
    /// The states a solve can be in: a run stays within its budget, stops
    /// when it is spent, and a closed-form regime never runs.
    pub open spec fn well_formed(self) -> bool {
        &&& self.steps <= budget_of(self.regime)
        &&& self.status == Status::Running ==> self.steps < budget_of(self.regime)
        &&& self.status == Status::Exhausted ==> self.steps == budget_of(self.regime)
        &&& self.status == Status::Converged && self.steps == 0 ==> budget_of(self.regime) == 0
        &&& budget_of(self.regime) == 0 ==> self.status == Status::Converged
    }

    /// The state at the start of a solve for a regime.
    pub open spec fn initial(regime: Regime) -> Progress {
        Progress {
            regime,
            steps: 0,
            status: if budget_of(regime) == 0 {
                Status::Converged
            } else {
                Status::Running
            },
        }
    }

    /// The state after one more correction whose size, or whose residual, is
    /// `measure`. The correction is counted, then tested against the
    /// tolerance, then the budget is looked at. A state that is not running
    /// stays as it is.
    pub open spec fn after(self, measure: Binary64) -> Progress {
        if self.status != Status::Running {
            self
        } else if within_tolerance(measure) {
            Progress { regime: self.regime, steps: self.steps + 1, status: Status::Converged }
        } else if self.steps + 1 >= budget_of(self.regime) {
            Progress { regime: self.regime, steps: self.steps + 1, status: Status::Exhausted }
        } else {
            Progress { regime: self.regime, steps: self.steps + 1, status: Status::Running }
        }
    }

    /// The state after the corrections `measures`, in order.
    pub open spec fn after_all(self, measures: Seq<Binary64>) -> Progress
        decreases measures.len(),
    {
        if measures.len() == 0 {
            self
        } else {
            self.after(measures[0]).after_all(measures.subrange(1, measures.len() as int))
        }
    }
}

/// An anomaly with the account of how it was reached.
#[derive(Clone, Copy, Debug, PartialEq, Eq, Structural)]
pub struct Solution {
    /// Eccentric anomaly on an ellipse, hyperbolic anomaly on a hyperbola.
    pub value: Binary64,
    /// Whether the tolerance was met, or the answer was closed-form; where
    /// it is false, `value` is the last iterate of a spent budget.
    pub converged: bool,
    /// Corrections applied.
    pub iterations: u32,
}

/// The bookkeeping of one solve: its regime, the corrections recorded so far,
/// and whether it goes on. Every value of this type is a well-formed state.
#[derive(Clone, Copy, Debug)]
pub struct Iteration {
    regime: Regime,
    steps: u32,
    status: Status,
}

impl View for Iteration {
    type V = Progress;

    closed spec fn view(&self) -> Progress {
        Progress { regime: self.regime, steps: self.steps as nat, status: self.status }
    }
}

impl Iteration {
    #[verifier::type_invariant]
    closed spec fn always_well_formed(self) -> bool {
        self@.well_formed()
    }

    /// Opens the solve for `(e, m)`: already converged where the answer is
    /// closed-form, running with nothing recorded elsewhere.
    pub fn start(e: Binary64, m: Binary64) -> (it: Iteration)
        ensures
            it@ == Progress::initial(regime_of(e, m)),
            it@.well_formed(),
            (it@.status == Status::Converged) == (closed_form(e, m) is Some),
    {
        let regime: Regime = classify(e, m);
        let status: Status = match regime {
            Regime::Elliptic => Status::Running,
            Regime::Hyperbolic => Status::Running,
            _ => Status::Converged,
        };
        Iteration { regime, steps: 0, status }
    }

    /// Records one correction and says whether another is due.
    pub fn advance(self, measure: Binary64) -> (next: Iteration)
        ensures
            next@ == self@.after(measure),
            next@.well_formed(),
    {
        proof {
            use_type_invariant(&self);
        }
        match self.status {
            Status::Running => {
                let steps: u32 = self.steps + 1;
                if meets_tolerance(measure) {
                    Iteration { regime: self.regime, steps, status: Status::Converged }
                } else if steps >= self.budget() {
                    Iteration { regime: self.regime, steps, status: Status::Exhausted }
                } else {
                    Iteration { regime: self.regime, steps, status: Status::Running }
                }
            },
            _ => self,
        }
    }

    pub fn regime(&self) -> (r: Regime)
        ensures
            r == self@.regime,
    {
        self.regime
    }

    /// The corrections recorded so far, never more than the budget.
    pub fn steps(&self) -> (n: u32)
        ensures
            n == self@.steps,
            n <= budget_of(self@.regime),
    {
        proof {
            use_type_invariant(self);
        }
        self.steps
    }

    pub fn status(&self) -> (s: Status)
        ensures
            s == self@.status,
    {
        self.status
    }

    /// The budget of this solve's regime.
    pub fn budget(&self) -> (b: u32)
        ensures
            b == budget_of(self@.regime),
    {
        match self.regime {
            Regime::Elliptic => ELLIPTIC_BUDGET,
            Regime::Hyperbolic => HYPERBOLIC_BUDGET,
            _ => 0,
        }
    }

    /// Whether another correction is due.
    pub fn is_running(&self) -> (r: bool)
        ensures
            r == (self@.status == Status::Running),
    {
        match self.status {
            Status::Running => true,
            _ => false,
        }
    }

    /// Closes the solve on its last iterate: the account of a solve that has
    /// stopped, nothing while another correction is due.
    pub fn conclude(&self, value: Binary64) -> (out: Option<Solution>)
        ensures
            out is None <==> self@.status == Status::Running,
            out matches Some(solution) ==> {
                &&& solution.value == value
                &&& solution.converged == (self@.status == Status::Converged)
                &&& solution.iterations == self@.steps
                &&& solution.iterations <= budget_of(self@.regime)
            },
    {
        proof {
            use_type_invariant(self);
        }
        match self.status {
            Status::Running => None,
            Status::Converged => Some(Solution { value, converged: true, iterations: self.steps }),
            Status::Exhausted => Some(
                Solution { value, converged: false, iterations: self.steps },
            ),
        }
    }

    /// Whether the solve ended by meeting the tolerance, or needed no iteration.
    pub fn has_converged(&self) -> (r: bool)
        ensures
            r == (self@.status == Status::Converged),
    {
        match self.status {
            Status::Converged => true,
            _ => false,
        }
    }
}

/// The tolerance is the double nearest to `10^-16`, the seed factor the
/// double nearest to `85/100`, and the negative seed factor its negation.
pub proof fn lemma_constants_denote()
    ensures
        tolerance().rounds(1, 10_000_000_000_000_000),
        (Binary64 { bits: SEED_FACTOR_BITS }).rounds(85, 100),
        (Binary64 { bits: MINUS_SEED_FACTOR_BITS }) == (Binary64 { bits: SEED_FACTOR_BITS }).negated(),
{
    lemma_pow2_values();
    let tol = tolerance();
    assert(tol.exponent_field() == 969);
    assert(tol.significand() == 8112963841460668);
    lemma_rounds(tol, 1, 10_000_000_000_000_000, 106);
    let k = Binary64 { bits: SEED_FACTOR_BITS };
    assert(k.exponent_field() == 1022);
    assert(k.significand() == 7656119366529843);
    lemma_rounds(k, 85, 100, 53);
}

/// A circular orbit returns the mean anomaly unchanged, whatever it is, and a
/// zero mean anomaly returns zero, whatever the eccentricity.
pub proof fn lemma_exact_boundaries(e: Binary64, m: Binary64)
    ensures
        e.zero() ==> closed_form(e, m) == Some(m),
        m.zero() ==> closed_form(e, m) is Some && closed_form(e, m)->0.zero(),
        !e.zero() && m.zero() ==> closed_form(e, m) == Some(Binary64 { bits: 0 }),
{
}

/// Advancing keeps a state well formed.
pub proof fn lemma_after_well_formed(it: Progress, measure: Binary64)
    requires
        it.well_formed(),
    ensures
        it.after(measure).well_formed(),
        it.after(measure).regime == it.regime,
        it.after(measure).steps >= it.steps,
{
}

/// The iteration is bounded: once as many corrections were recorded as the
/// budget had left, the solve has stopped, within its budget, whatever the
/// corrections were.
pub proof fn lemma_budget_bounds_iteration(it: Progress, measures: Seq<Binary64>)
    requires
        it.well_formed(),
        it.steps + measures.len() >= budget_of(it.regime),
    ensures
        it.after_all(measures).status != Status::Running,
        it.after_all(measures).steps <= budget_of(it.regime),
        it.after_all(measures).regime == it.regime,
    decreases measures.len(),
{
    if measures.len() > 0 {
        lemma_after_well_formed(it, measures[0]);
        let next = it.after(measures[0]);
        let rest = measures.subrange(1, measures.len() as int);
        if it.status == Status::Running {
            assert(next.steps == it.steps + 1);
        } else {
            assert(next == it);
            lemma_stopped_stays(it, rest);
        }
        if next.status == Status::Running {
            lemma_budget_bounds_iteration(next, rest);
        } else {
            lemma_stopped_stays(next, rest);
        }
    }
}

/// A solve that has stopped is not moved by further corrections.
pub proof fn lemma_stopped_stays(it: Progress, measures: Seq<Binary64>)
    requires
        it.status != Status::Running,
    ensures
        it.after_all(measures) == it,
    decreases measures.len(),
{
    if measures.len() > 0 {
        lemma_stopped_stays(it, measures.subrange(1, measures.len() as int));
    }
}

/// A correction that meets the tolerance ends a running solve as converged,
/// at any point of its budget.
pub proof fn lemma_tolerance_converges(it: Progress, measure: Binary64)
    requires
        it.well_formed(),
        it.status == Status::Running,
        within_tolerance(measure),
    ensures
        it.after(measure).status == Status::Converged,
        it.after(measure).steps == it.steps + 1,
{
}

} // verus!
