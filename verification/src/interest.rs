//! Compound-interest projector.
//!
//! A pure function of [`CompoundInterestParams`], independent of transaction
//! aggregation.  All arithmetic is fixed point: currency values are carried
//! in nanos (billionths of a currency unit) and the periodic growth factor in
//! nanos as well, with a rounding division after every compounding step.
//! Values are clamped to [`VALUE_CAP`] in magnitude; once a projection
//! reaches the cap it stays there, which keeps every step inside `i128`.

use vstd::prelude::*;

use crate::model::{AnalyzeError, CompoundInterestParams, CompoundProjection, GrowthPoint,
    ParamField};
use crate::rounding::{div_round, lemma_rdiv_magnitude, rdiv};

verus! {

/// Nanos in one currency unit: the fixed-point scale of the projector.
pub const SCALE_NANOS: i128 = 1_000_000_000;

/// Nanos in one cent.
pub const CENT_NANOS: i128 = 10_000_000;

/// Magnitude bound on projected values, in nanos.  A projection that leaves
/// this range is held at the bound.
pub const VALUE_CAP: i128 = 100_000_000_000_000_000_000_000_000;

/// Largest principal the projector accepts, in cents.
pub const MAX_PRINCIPAL_CENTS: i64 = 100_000_000_000_000_000;

/// Largest annual-rate magnitude the projector accepts, in nanos (10000% a
/// year).
pub const MAX_RATE_NANOS: i64 = 100_000_000_000;

/// Largest magnitude of the periodic growth factor, in nanos.
pub const FACTOR_LIMIT: i128 = 101_000_000_000;

/// Largest number of whole compounding periods the projector accepts.
pub const MAX_TOTAL_PERIODS: u32 = 12_000_000;

/// At most this many points are emitted on the growth curve.
pub const BREAKDOWN_CAP: usize = 120;

/// A value clamped into the supported range.
pub open spec fn clamp_value(x: int) -> int {
    if x > VALUE_CAP as int {
        VALUE_CAP as int
    } else if x < -(VALUE_CAP as int) {
        -(VALUE_CAP as int)
    } else {
        x
    }
}

/// One compounding step: multiply by the periodic factor `f` (in nanos),
/// round back to nano scale, clamp.  A value already at the cap is absorbed.
pub open spec fn step_value(v: int, f: int) -> int {
    if v >= VALUE_CAP as int || v <= -(VALUE_CAP as int) {
        v
    } else {
        clamp_value(rdiv(v * f, SCALE_NANOS as int))
    }
}

/// Value after `m` compounding steps starting from `v0` nanos.
pub open spec fn growth(v0: int, f: int, m: nat) -> int
    decreases m,
{
    if m == 0 {
        v0
    } else {
        step_value(growth(v0, f, (m - 1) as nat), f)
    }
}

/// Growth never leaves the supported range.
pub proof fn lemma_growth_bounded(v0: int, f: int, m: nat)
    requires
        -(VALUE_CAP as int) <= v0 <= VALUE_CAP as int,
    ensures
        -(VALUE_CAP as int) <= growth(v0, f, m) <= VALUE_CAP as int,
    decreases m,
{
    if m > 0 {
        lemma_growth_bounded(v0, f, (m - 1) as nat);
    }
}

/// Whole compounding periods covered by the horizon: `floor(n * t)`.
pub open spec fn spec_total_periods(p: CompoundInterestParams) -> int {
    (p.compounds_per_year * p.years_centi) / 100
}

/// The inputs on which a projection is owed.  The first two bounds come from
/// the engine's contract (at least one period a year, non-negative
/// principal); the rest are the machine limits of the fixed-point model.
pub open spec fn params_valid(p: CompoundInterestParams) -> bool {
    &&& p.compounds_per_year >= 1
    &&& 0 <= p.principal_cents <= MAX_PRINCIPAL_CENTS
    &&& -MAX_RATE_NANOS <= p.annual_rate_nanos <= MAX_RATE_NANOS
    &&& spec_total_periods(p) <= MAX_TOTAL_PERIODS
}

/// Periodic growth factor in nanos: one plus the annual rate divided by the
/// number of periods a year.
pub open spec fn spec_factor(p: CompoundInterestParams) -> int {
    SCALE_NANOS + rdiv(p.annual_rate_nanos as int, p.compounds_per_year as int)
}

/// The principal in nanos: the projection's starting value.
pub open spec fn spec_start_nanos(p: CompoundInterestParams) -> int {
    p.principal_cents * CENT_NANOS
}

/// Projected value in nanos after `m` periods.
pub open spec fn spec_value_nanos(p: CompoundInterestParams, m: nat) -> int {
    growth(spec_start_nanos(p), spec_factor(p), m)
}

/// Future value after the whole horizon, rounded to cents.
pub open spec fn spec_future_value_cents(p: CompoundInterestParams) -> int {
    rdiv(spec_value_nanos(p, spec_total_periods(p) as nat), CENT_NANOS as int)
}

/// Interest earned over the whole horizon, rounded to cents.
pub open spec fn spec_total_interest_cents(p: CompoundInterestParams) -> int {
    rdiv(
        spec_value_nanos(p, spec_total_periods(p) as nat) - spec_start_nanos(p),
        CENT_NANOS as int,
    )
}

/// Effective annual rate in hundredths of a percent: grow one unit for a
/// year, take the gain, express it as a two-decimal percentage.
pub open spec fn spec_effective_rate_centi_pct(p: CompoundInterestParams) -> int {
    rdiv(
        (growth(SCALE_NANOS as int, spec_factor(p), p.compounds_per_year as nat)
            - SCALE_NANOS) * 10000,
        SCALE_NANOS as int,
    )
}

/// Sampling stride of the growth curve: about one point per calendar month
/// when compounding is more frequent than monthly.
pub open spec fn spec_sample_step(p: CompoundInterestParams) -> int {
    if p.compounds_per_year / 12 >= 1 {
        p.compounds_per_year as int / 12
    } else {
        1
    }
}

/// Whether period `m` lands on the sampling cadence (the final period is
/// always sampled).
pub open spec fn period_sampled(m: int, total: int, step: int) -> bool {
    m % step == 0 || m == total
}

/// The sampled period indices among `1..=upto`, in ascending order, before
/// the cap is applied.
pub open spec fn sampled_periods(total: int, step: int, upto: int) -> Seq<int>
    decreases upto,
{
    if upto <= 0 {
        Seq::empty()
    } else {
        let rest = sampled_periods(total, step, upto - 1);
        if period_sampled(upto, total, step) {
            rest.push(upto)
        } else {
            rest
        }
    }
}

/// How many points the growth curve holds: the sampled periods, capped.
pub open spec fn spec_breakdown_len(p: CompoundInterestParams) -> int {
    let full = sampled_periods(
        spec_total_periods(p),
        spec_sample_step(p),
        spec_total_periods(p),
    ).len() as int;
    if full < BREAKDOWN_CAP as int {
        full
    } else {
        BREAKDOWN_CAP as int
    }
}

/// Checks the projection parameters, naming the first offending field.
pub fn validate_params(p: &CompoundInterestParams) -> (r: Result<(), AnalyzeError>)
    ensures
        r is Ok <==> params_valid(*p),
        p.compounds_per_year == 0 ==> r == Err::<(), AnalyzeError>(
            AnalyzeError::InvalidParameter(ParamField::CompoundsPerYear),
        ),
        p.compounds_per_year >= 1 && !(0 <= p.principal_cents <= MAX_PRINCIPAL_CENTS)
            ==> r == Err::<(), AnalyzeError>(
            AnalyzeError::InvalidParameter(ParamField::Principal),
        ),
        p.compounds_per_year >= 1 && 0 <= p.principal_cents <= MAX_PRINCIPAL_CENTS
            && !(-MAX_RATE_NANOS <= p.annual_rate_nanos <= MAX_RATE_NANOS)
            ==> r == Err::<(), AnalyzeError>(AnalyzeError::InvalidParameter(ParamField::Rate)),
        p.compounds_per_year >= 1 && 0 <= p.principal_cents <= MAX_PRINCIPAL_CENTS
            && -MAX_RATE_NANOS <= p.annual_rate_nanos <= MAX_RATE_NANOS
            && spec_total_periods(*p) > MAX_TOTAL_PERIODS
            ==> r == Err::<(), AnalyzeError>(AnalyzeError::InvalidParameter(ParamField::Years)),
{
    if p.compounds_per_year == 0 {
        return Err(AnalyzeError::InvalidParameter(ParamField::CompoundsPerYear));
    }
    if p.principal_cents < 0 || p.principal_cents > MAX_PRINCIPAL_CENTS {
        return Err(AnalyzeError::InvalidParameter(ParamField::Principal));
    }
    if p.annual_rate_nanos < -MAX_RATE_NANOS || p.annual_rate_nanos > MAX_RATE_NANOS {
        return Err(AnalyzeError::InvalidParameter(ParamField::Rate));
    }
    let n_wide: u128 = p.compounds_per_year as u128;
    let years_wide: u128 = p.years_centi as u128;
    proof {
        assert(n_wide * years_wide <= 0xffff_ffff * 0xffff_ffff_ffff_ffff) by (nonlinear_arith)
            requires
                n_wide <= 0xffff_ffff,
                years_wide <= 0xffff_ffff_ffff_ffff,
        ;
    }
    let periods: u128 = n_wide * years_wide / 100;
    if periods > MAX_TOTAL_PERIODS as u128 {
        return Err(AnalyzeError::InvalidParameter(ParamField::Years));
    }
    Ok(())
}

/// One point of the growth curve is the sampled period at its index, with
/// the projected value after that period, rounded to cents.
pub open spec fn point_matches(p: CompoundInterestParams, g: GrowthPoint, j: int) -> bool {
    let periods = sampled_periods(
        spec_total_periods(p),
        spec_sample_step(p),
        spec_total_periods(p),
    );
    &&& g.period == periods[j]
    &&& g.value_cents == rdiv(spec_value_nanos(p, periods[j] as nat), CENT_NANOS as int)
}

/// The whole contract of the projector: every field of the projection is
/// the corresponding spec value, and every growth-curve point matches its
/// sampled period.
pub open spec fn projection_matches(r: CompoundProjection, p: CompoundInterestParams) -> bool {
    &&& r.principal_cents == p.principal_cents
    &&& r.future_value_cents == spec_future_value_cents(p)
    &&& r.total_interest_cents == spec_total_interest_cents(p)
    &&& r.effective_rate_centi_pct == spec_effective_rate_centi_pct(p)
    &&& r.breakdown@.len() == spec_breakdown_len(p)
    &&& forall|j: int| 0 <= j < r.breakdown@.len() ==> #[trigger] point_matches(p, r.breakdown@[j], j)
}

/// One executable compounding step, exact counterpart of [`step_value`].
fn step_exec(v: i128, f: i128) -> (r: i128)
    requires
        -VALUE_CAP <= v <= VALUE_CAP,
        -FACTOR_LIMIT <= f <= FACTOR_LIMIT,
    ensures
        r == step_value(v as int, f as int),
        -VALUE_CAP <= r <= VALUE_CAP,
{
    if v >= VALUE_CAP || v <= -VALUE_CAP {
        v
    } else {
        proof {
            assert(-(VALUE_CAP as int) * (FACTOR_LIMIT as int) <= v * f
                <= (VALUE_CAP as int) * (FACTOR_LIMIT as int)) by (nonlinear_arith)
                requires
                    -(VALUE_CAP as int) <= v <= VALUE_CAP as int,
                    -(FACTOR_LIMIT as int) <= f <= FACTOR_LIMIT as int,
            ;
        }
        let w: i128 = div_round(v * f, SCALE_NANOS);
        if w > VALUE_CAP {
            VALUE_CAP
        } else if w < -VALUE_CAP {
            -VALUE_CAP
        } else {
            w
        }
    }
}

/// Computes the compound-growth projection: future value, total interest,
/// effective annual rate, and the sampled growth curve.
///
/// Period `m` is on the curve iff `m` is a multiple of the sampling stride
/// or is the final period; the earliest [`BREAKDOWN_CAP`] such periods are
/// kept.
pub fn project(p: &CompoundInterestParams) -> (r: CompoundProjection)
    requires
        params_valid(*p),
    ensures
        projection_matches(r, *p),
{
    let n_wide: u128 = p.compounds_per_year as u128;
    let years_wide: u128 = p.years_centi as u128;
    proof {
        assert(n_wide * years_wide <= 0xffff_ffff * 0xffff_ffff_ffff_ffff) by (nonlinear_arith)
            requires
                n_wide <= 0xffff_ffff,
                years_wide <= 0xffff_ffff_ffff_ffff,
        ;
    }
    let total: u32 = (n_wide * years_wide / 100) as u32;
    assert(total == spec_total_periods(*p));

    let factor: i128 = SCALE_NANOS + div_round(
        p.annual_rate_nanos as i128,
        p.compounds_per_year as i128,
    );
    proof {
        lemma_rdiv_magnitude(p.annual_rate_nanos as int, p.compounds_per_year as int);
    }
    assert(-FACTOR_LIMIT <= factor <= FACTOR_LIMIT);
    assert(factor == spec_factor(*p));

    let stride: u32 = if p.compounds_per_year / 12 >= 1 {
        p.compounds_per_year / 12
    } else {
        1
    };
    assert(stride as int == spec_sample_step(*p));

    // Effective annual rate: grow one currency unit for one year.
    let mut unit: i128 = SCALE_NANOS;
    let mut i: u32 = 0;
    while i < p.compounds_per_year
        invariant
            i <= p.compounds_per_year,
            -VALUE_CAP <= unit <= VALUE_CAP,
            unit == growth(SCALE_NANOS as int, factor as int, i as nat),
            -FACTOR_LIMIT <= factor <= FACTOR_LIMIT,
        decreases p.compounds_per_year - i,
    {
        unit = step_exec(unit, factor);
        i = i + 1;
    }
    let effective_rate_centi_pct: i128 = div_round((unit - SCALE_NANOS) * 10000, SCALE_NANOS);

    // The projection itself.
    let start: i128 = p.principal_cents as i128 * CENT_NANOS;
    assert(start == spec_start_nanos(*p));
    let mut value: i128 = start;
    let mut breakdown: Vec<GrowthPoint> = Vec::new();
    let mut m: u32 = 0;
    while m < total
        invariant
            m <= total,
            params_valid(*p),
            total == spec_total_periods(*p),
            stride as int == spec_sample_step(*p),
            stride >= 1,
            factor as int == spec_factor(*p),
            -FACTOR_LIMIT <= factor <= FACTOR_LIMIT,
            start == spec_start_nanos(*p),
            -VALUE_CAP <= value <= VALUE_CAP,
            value == spec_value_nanos(*p, m as nat),
            breakdown@.len() == ({
                let upto = sampled_periods(total as int, stride as int, m as int).len() as int;
                if upto < BREAKDOWN_CAP as int { upto } else { BREAKDOWN_CAP as int }
            }),
            forall|j: int|
                0 <= j < breakdown@.len() ==> {
                    let periods = sampled_periods(total as int, stride as int, m as int);
                    (#[trigger] breakdown@[j]).period == periods[j]
                        && breakdown@[j].value_cents == rdiv(
                        spec_value_nanos(*p, periods[j] as nat),
                        CENT_NANOS as int,
                    )
                },
        decreases total - m,
    {
        let ghost prev_periods = sampled_periods(total as int, stride as int, m as int);
        m = m + 1;
        value = step_exec(value, factor);
        let ghost cur_periods = sampled_periods(total as int, stride as int, m as int);
        if (m % stride == 0 || m == total) && breakdown.len() < BREAKDOWN_CAP {
            let point_value: i128 = div_round(value, CENT_NANOS);
            breakdown.push(GrowthPoint { period: m, value_cents: point_value });
            proof {
                assert(period_sampled(m as int, total as int, stride as int));
                assert(cur_periods == prev_periods.push(m as int));
            }
        } else {
            proof {
                if period_sampled(m as int, total as int, stride as int) {
                    assert(cur_periods == prev_periods.push(m as int));
                } else {
                    assert(cur_periods == prev_periods);
                }
            }
        }
    }

    let future_value_cents: i128 = div_round(value, CENT_NANOS);
    let total_interest_cents: i128 = div_round(value - start, CENT_NANOS);

    CompoundProjection {
        future_value_cents,
        total_interest_cents,
        principal_cents: p.principal_cents,
        effective_rate_centi_pct,
        breakdown,
    }
}

} // verus!
