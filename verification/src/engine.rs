//! Response assembler: the engine's single entry point.
//!
//! Validates the optional projection parameters, runs the aggregation pass
//! and the projector, derives the balance and the savings rate, and emits
//! the immutable response.  Currency totals are already exact cents, so the
//! two-decimal rounding policy touches only the projector's outputs and the
//! two percentage figures.

use vstd::prelude::*;

use crate::aggregate::{aggregate, distribution_matches, expense_total, income_total,
    monthly_matches, AMOUNT_LIMIT, MAX_TRANSACTIONS};
use crate::interest::{params_valid, project, projection_matches, spec_total_periods,
    validate_params, MAX_PRINCIPAL_CENTS, MAX_RATE_NANOS, MAX_TOTAL_PERIODS};
use crate::model::{AnalyzeError, AnalyzeResponse, CompoundInterestParams, ParamField,
    Transaction};
use crate::rounding::{div_round, rdiv};

verus! {

/// Largest magnitude either running total can reach: the transaction cap
/// times the amount cap.
pub const TOTAL_LIMIT: i128 = 9_223_372_036_854_775_808_000_000_000_000;

/// Savings rate in hundredths of a percent: zero when there is no income
/// (no division by zero), otherwise the balance as a share of income.
pub open spec fn spec_savings_rate(income: int, expenses: int) -> int {
    if income == 0 {
        0
    } else if income > 0 {
        rdiv((income - expenses) * 10000, income)
    } else {
        rdiv(-((income - expenses) * 10000), -income)
    }
}

/// Executable savings rate, exact counterpart of [`spec_savings_rate`].
pub fn savings_rate_centi_pct(income: i128, expenses: i128) -> (r: i128)
    requires
        -TOTAL_LIMIT <= income <= TOTAL_LIMIT,
        -TOTAL_LIMIT <= expenses <= TOTAL_LIMIT,
    ensures
        r == spec_savings_rate(income as int, expenses as int),
{
    if income == 0 {
        0
    } else if income > 0 {
        div_round((income - expenses) * 10000, income)
    } else {
        div_round(-((income - expenses) * 10000), -income)
    }
}

/// Everything the engine promises of a successful response.
pub open spec fn response_matches(
    r: AnalyzeResponse,
    txs: Seq<Transaction>,
    params: Option<CompoundInterestParams>,
) -> bool {
    &&& r.income_cents == income_total(txs)
    &&& r.expenses_cents == expense_total(txs)
    &&& r.balance_cents == income_total(txs) - expense_total(txs)
    &&& r.savings_rate_centi_pct == spec_savings_rate(income_total(txs), expense_total(txs))
    &&& distribution_matches(r.category_distribution@, txs)
    &&& monthly_matches(r.monthly_stats@, txs)
    &&& match params {
        Option::None => r.compound_interest is None,
        Option::Some(p) => {
            &&& r.compound_interest is Some
            &&& projection_matches(r.compound_interest->0, p)
        },
    }
}

/// Runs the whole engine: aggregation, optional projection, assembly.
///
/// Succeeds exactly when the projection parameters are absent or valid; a
/// rejected parameter is reported by field, and no partial response is
/// built.  The response is a pure function of the inputs.
pub fn analyze(txs: &Vec<Transaction>, params: &Option<CompoundInterestParams>) -> (r: Result<
    AnalyzeResponse,
    AnalyzeError,
>)
    requires
        txs@.len() <= MAX_TRANSACTIONS,
    ensures
        r is Ok <==> (params is None || params_valid(params->0)),
        params matches Some(p) && p.compounds_per_year == 0 ==> r == Err::<
            AnalyzeResponse,
            AnalyzeError,
        >(AnalyzeError::InvalidParameter(ParamField::CompoundsPerYear)),
        params matches Some(p) && p.compounds_per_year >= 1 && !(0 <= p.principal_cents
            <= MAX_PRINCIPAL_CENTS) ==> r == Err::<AnalyzeResponse, AnalyzeError>(
            AnalyzeError::InvalidParameter(ParamField::Principal),
        ),
        params matches Some(p) && p.compounds_per_year >= 1 && 0 <= p.principal_cents
            <= MAX_PRINCIPAL_CENTS && !(-MAX_RATE_NANOS <= p.annual_rate_nanos <= MAX_RATE_NANOS)
            ==> r == Err::<AnalyzeResponse, AnalyzeError>(
            AnalyzeError::InvalidParameter(ParamField::Rate),
        ),
        params matches Some(p) && p.compounds_per_year >= 1 && 0 <= p.principal_cents
            <= MAX_PRINCIPAL_CENTS && -MAX_RATE_NANOS <= p.annual_rate_nanos <= MAX_RATE_NANOS
            && spec_total_periods(*p) > MAX_TOTAL_PERIODS ==> r == Err::<
            AnalyzeResponse,
            AnalyzeError,
        >(AnalyzeError::InvalidParameter(ParamField::Years)),
        r matches Ok(resp) ==> response_matches(resp, txs@, *params),
        r matches Ok(resp) ==> (income_total(txs@) == 0 ==> resp.savings_rate_centi_pct == 0),
{
    match params {
        Option::Some(p) => {
            match validate_params(p) {
                Err(e) => {
                    return Err(e);
                },
                Ok(_) => {
                },
            }
        },
        Option::None => {
        },
    }

    let agg = aggregate(txs);
    proof {
        crate::aggregate::lemma_totals_bounded(txs@);
        assert(txs@.len() * AMOUNT_LIMIT <= 1_000_000_000_000 * AMOUNT_LIMIT);
    }
    let balance: i128 = agg.income_cents - agg.expenses_cents;
    let savings: i128 = savings_rate_centi_pct(agg.income_cents, agg.expenses_cents);
    let compound = match params {
        Option::Some(p) => Option::Some(project(p)),
        Option::None => Option::None,
    };

    Ok(
        AnalyzeResponse {
            income_cents: agg.income_cents,
            expenses_cents: agg.expenses_cents,
            balance_cents: balance,
            savings_rate_centi_pct: savings,
            category_distribution: agg.category_distribution,
            monthly_stats: agg.monthly_stats,
            compound_interest: compound,
        },
    )
}

} // verus!
