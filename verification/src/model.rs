//! Data model of the analytics engine.
//!
//! Currency amounts are carried as integer cents, rates as nanos
//! (billionths), percentages as hundredths of a percent.  These fixed-point
//! scales make every derived figure an exact integer computation.

use vstd::prelude::*;

verus! {

/// What a transaction contributes to the aggregates.  Anything besides
/// income and expense is preserved but contributes to no sum.
#[derive(Clone, Copy, PartialEq, Eq, Structural, Debug)]
pub enum TxKind {
    Income,
    Expense,
    Other,
}

/// One ledger transaction, consumed once during aggregation.
#[derive(Debug)]
pub struct Transaction {
    pub name: String,
    pub category: String,
    /// Signed amount in cents.
    pub amount_cents: i64,
    pub kind: TxKind,
    /// Date string, expected "YYYY-MM-DD" or longer; any string is accepted.
    pub date: String,
}

/// Parameters of the optional compound-growth projection.
#[derive(Clone, Copy, Debug)]
pub struct CompoundInterestParams {
    /// Starting principal in cents; must be non-negative.
    pub principal_cents: i64,
    /// Annual rate in nanos: 65_000_000 stands for 6.5% a year.
    pub annual_rate_nanos: i64,
    /// Compounding periods per year; must be at least one.
    pub compounds_per_year: u32,
    /// Projection horizon in hundredths of a year.
    pub years_centi: u64,
}

/// One month of aggregated activity, keyed by the first seven characters of
/// the date ("YYYY-MM"), or "unknown" for shorter dates.
#[derive(Debug)]
pub struct MonthStat {
    pub label: String,
    pub income_cents: i128,
    pub expense_cents: i128,
}

/// Cumulative absolute spend for one user-supplied category label.
#[derive(Debug)]
pub struct CategoryShare {
    pub category: String,
    pub amount_cents: i128,
}

/// One sampled point of the growth curve.
#[derive(Clone, Copy, Debug)]
pub struct GrowthPoint {
    /// Compounding period index, starting at one.
    pub period: u32,
    /// Projected value after that period, rounded to cents.
    pub value_cents: i128,
}

/// Result of the compound-interest projector.
#[derive(Debug)]
pub struct CompoundProjection {
    pub future_value_cents: i128,
    pub total_interest_cents: i128,
    pub principal_cents: i64,
    /// Effective annual rate in hundredths of a percent.
    pub effective_rate_centi_pct: i128,
    pub breakdown: Vec<GrowthPoint>,
}

/// The complete analytics response: totals, distribution, monthly series and
/// the optional projection.
#[derive(Debug)]
pub struct AnalyzeResponse {
    pub income_cents: i128,
    pub expenses_cents: i128,
    pub balance_cents: i128,
    /// Savings rate in hundredths of a percent.
    pub savings_rate_centi_pct: i128,
    pub category_distribution: Vec<CategoryShare>,
    pub monthly_stats: Vec<MonthStat>,
    pub compound_interest: Option<CompoundProjection>,
}

/// The projection parameter a validation failure points at.
#[derive(Clone, Copy, PartialEq, Eq, Structural, Debug)]
pub enum ParamField {
    CompoundsPerYear,
    Principal,
    Rate,
    Years,
}

/// Everything that can go wrong with a request.  The engine itself performs
/// no I/O, so it only ever reports a rejected parameter; the malformed-input
/// case is raised by the surrounding transport when a body fails to parse.
#[derive(Clone, Copy, PartialEq, Eq, Structural, Debug)]
pub enum AnalyzeError {
    MalformedInput,
    InvalidParameter(ParamField),
}

} // verus!
