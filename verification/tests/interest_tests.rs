use finmath::interest::{project, validate_params};
use finmath::model::CompoundInterestParams;
use finmath::rounding::div_round;

fn params(
    principal_cents: i64,
    annual_rate_nanos: i64,
    compounds_per_year: u32,
    years_centi: u64,
) -> CompoundInterestParams {
    CompoundInterestParams { principal_cents, annual_rate_nanos, compounds_per_year, years_centi }
}

#[test]
fn monthly_compounding_over_one_year() {
    // 1000.00 at 12% a year, compounded monthly for one year.
    let p = params(100_000, 120_000_000, 12, 100);
    assert!(validate_params(&p).is_ok());
    let r = project(&p);
    assert_eq!(r.principal_cents, 100_000);
    assert_eq!(r.future_value_cents, 112_683);
    assert_eq!(r.total_interest_cents, 12_683);
    // Effective annual rate 12.68%, in hundredths of a percent.
    assert_eq!(r.effective_rate_centi_pct, 1_268);
    // One point per month: step is one, so all twelve periods appear.
    assert_eq!(r.breakdown.len(), 12);
    for (i, point) in r.breakdown.iter().enumerate() {
        assert_eq!(point.period as usize, i + 1);
    }
    assert_eq!(r.breakdown[11].period, 12);
    assert_eq!(r.breakdown[11].value_cents, r.future_value_cents);
    // First month: 1000.00 * 1.01 = 1010.00.
    assert_eq!(r.breakdown[0].value_cents, 101_000);
}

#[test]
fn zero_years_returns_principal_untouched() {
    let p = params(55_555, 90_000_000, 4, 0);
    let r = project(&p);
    assert_eq!(r.future_value_cents, 55_555);
    assert_eq!(r.total_interest_cents, 0);
    assert!(r.breakdown.is_empty());
}

#[test]
fn breakdown_capped_at_120_points() {
    // Monthly compounding over 15 years: 180 periods at step one; only the
    // earliest 120 sampled periods are emitted.
    let p = params(100_000, 120_000_000, 12, 1_500);
    let r = project(&p);
    assert_eq!(r.breakdown.len(), 120);
    assert_eq!(r.breakdown[0].period, 1);
    assert_eq!(r.breakdown[119].period, 120);
    for w in r.breakdown.windows(2) {
        assert!(w[0].period < w[1].period);
    }
}

#[test]
fn frequent_compounding_samples_about_monthly() {
    // Daily-ish compounding: 360 periods a year gives a stride of 30, so
    // one point per 30 periods plus the final period.
    let p = params(100_000, 50_000_000, 360, 100);
    let r = project(&p);
    let periods: Vec<u32> = r.breakdown.iter().map(|g| g.period).collect();
    assert_eq!(periods, vec![30, 60, 90, 120, 150, 180, 210, 240, 270, 300, 330, 360]);
}

#[test]
fn final_period_included_off_cadence() {
    // 25 periods at a stride of 2: the final period 25 is kept even though
    // it is not a multiple of the stride.
    let p = params(100_000, 60_000_000, 24, 105);
    let r = project(&p);
    let periods: Vec<u32> = r.breakdown.iter().map(|g| g.period).collect();
    assert_eq!(periods, vec![2, 4, 6, 8, 10, 12, 14, 16, 18, 20, 22, 24, 25]);
}

#[test]
fn zero_rate_grows_nothing() {
    let p = params(123_456, 0, 12, 300);
    let r = project(&p);
    assert_eq!(r.future_value_cents, 123_456);
    assert_eq!(r.total_interest_cents, 0);
    assert_eq!(r.effective_rate_centi_pct, 0);
    for point in &r.breakdown {
        assert_eq!(point.value_cents, 123_456);
    }
}

#[test]
fn negative_rate_shrinks_value() {
    // -12% a year, monthly: one percent off each month.
    let p = params(100_000, -120_000_000, 12, 100);
    let r = project(&p);
    assert!(r.future_value_cents < 100_000);
    assert!(r.total_interest_cents < 0);
    assert!(r.effective_rate_centi_pct < 0);
    // 1000.00 * 0.99 = 990.00 after the first month.
    assert_eq!(r.breakdown[0].value_cents, 99_000);
}

#[test]
fn annual_compounding_effective_rate_equals_nominal() {
    let p = params(100_000, 65_000_000, 1, 100);
    let r = project(&p);
    // One period a year: effective = nominal = 6.50%.
    assert_eq!(r.effective_rate_centi_pct, 650);
    assert_eq!(r.future_value_cents, 106_500);
}

#[test]
fn rounding_is_half_away_from_zero() {
    assert_eq!(div_round(5, 10), 1);
    assert_eq!(div_round(4, 10), 0);
    assert_eq!(div_round(-5, 10), -1);
    assert_eq!(div_round(-4, 10), 0);
    assert_eq!(div_round(15, 10), 2);
    assert_eq!(div_round(25, 10), 3);
    assert_eq!(div_round(7, 3), 2);
    assert_eq!(div_round(-7, 3), -2);
}
