//! The engine's global laws, stated and proved once over the spec model.
//!
//! Each lemma here restates a promise the executable functions make through
//! their contracts, in a form a reader can check at a glance: balance
//! consistency, the savings-rate guard, distribution totals, monthly-series
//! order, determinism of the whole response, the zero-horizon boundary of
//! the projector, and the growth-curve cap.

use vstd::prelude::*;

use crate::aggregate::{distribution_matches, expense_total, has_label, income_total,
    month_expense, month_income, month_present, monthly_matches, sum_shares};
use crate::engine::response_matches;
use crate::interest::{params_valid, point_matches, projection_matches, spec_breakdown_len,
    spec_future_value_cents, spec_total_interest_cents, spec_total_periods, BREAKDOWN_CAP,
    CENT_NANOS};
use crate::lex::{lemma_lex_asymmetric, lemma_lex_total, lemma_lex_transitive, lex_lt};
use crate::model::{AnalyzeResponse, CategoryShare, CompoundInterestParams, GrowthPoint,
    MonthStat};
use crate::rounding::lemma_rdiv_exact;

verus! {

/// The balance equals income minus expenses, exactly: with whole cents
/// there is no rounding slack at all between the three figures.
pub proof fn lemma_balance_consistency(
    r: AnalyzeResponse,
    txs: Seq<crate::model::Transaction>,
    params: Option<CompoundInterestParams>,
)
    requires
        response_matches(r, txs, params),
    ensures
        r.balance_cents == r.income_cents - r.expenses_cents,
{
}

/// The savings rate is zero whenever there is no income, whatever the
/// expense total.
pub proof fn lemma_savings_rate_guard(
    r: AnalyzeResponse,
    txs: Seq<crate::model::Transaction>,
    params: Option<CompoundInterestParams>,
)
    requires
        response_matches(r, txs, params),
        income_total(txs) == 0,
    ensures
        r.savings_rate_centi_pct == 0,
{
}

/// Distribution values are non-negative and sum exactly to the expense
/// total, before any rounding.
pub proof fn lemma_distribution_totals(
    r: AnalyzeResponse,
    txs: Seq<crate::model::Transaction>,
    params: Option<CompoundInterestParams>,
)
    requires
        response_matches(r, txs, params),
    ensures
        sum_shares(r.category_distribution@) == r.expenses_cents,
        forall|j: int|
            0 <= j < r.category_distribution@.len() ==> (#[trigger] r.category_distribution@[
                j]).amount_cents >= 0,
{
}

/// Monthly labels are strictly ascending, hence pairwise distinct.
pub proof fn lemma_monthly_order(
    r: AnalyzeResponse,
    txs: Seq<crate::model::Transaction>,
    params: Option<CompoundInterestParams>,
)
    requires
        response_matches(r, txs, params),
    ensures
        forall|j: int, k: int|
            0 <= j < k < r.monthly_stats@.len() ==> lex_lt(
                (#[trigger] r.monthly_stats@[j]).label@,
                (#[trigger] r.monthly_stats@[k]).label@,
            ),
        forall|j: int, k: int|
            0 <= j < k < r.monthly_stats@.len() ==> (#[trigger] r.monthly_stats@[j]).label@
                != (#[trigger] r.monthly_stats@[k]).label@,
{
    assert forall|j: int, k: int|
        0 <= j < k < r.monthly_stats@.len() implies (#[trigger] r.monthly_stats@[j]).label@ != (
    #[trigger] r.monthly_stats@[k]).label@ by {
        lemma_lex_asymmetric(r.monthly_stats@[j].label@, r.monthly_stats@[k].label@);
    }
}

/// Two category distributions agree entry by entry.
pub open spec fn shares_equivalent(a: Seq<CategoryShare>, b: Seq<CategoryShare>) -> bool {
    &&& a.len() == b.len()
    &&& forall|j: int|
        0 <= j < a.len() ==> (#[trigger] a[j]).category@ == (#[trigger] b[j]).category@ && a[
            j].amount_cents == b[j].amount_cents
}

/// Two monthly series agree entry by entry.
pub open spec fn monthly_equivalent(a: Seq<MonthStat>, b: Seq<MonthStat>) -> bool {
    &&& a.len() == b.len()
    &&& forall|j: int|
        0 <= j < a.len() ==> (#[trigger] a[j]).label@ == (#[trigger] b[j]).label@ && a[
            j].income_cents == b[j].income_cents && a[j].expense_cents == b[j].expense_cents
}

/// Two responses agree in every observable field; string contents are
/// compared by their character sequences.
pub open spec fn responses_equivalent(a: AnalyzeResponse, b: AnalyzeResponse) -> bool {
    &&& a.income_cents == b.income_cents
    &&& a.expenses_cents == b.expenses_cents
    &&& a.balance_cents == b.balance_cents
    &&& a.savings_rate_centi_pct == b.savings_rate_centi_pct
    &&& shares_equivalent(a.category_distribution@, b.category_distribution@)
    &&& monthly_equivalent(a.monthly_stats@, b.monthly_stats@)
    &&& match (a.compound_interest, b.compound_interest) {
        (Option::None, Option::None) => true,
        (Option::Some(x), Option::Some(y)) => {
            &&& x.future_value_cents == y.future_value_cents
            &&& x.total_interest_cents == y.total_interest_cents
            &&& x.principal_cents == y.principal_cents
            &&& x.effective_rate_centi_pct == y.effective_rate_centi_pct
            &&& x.breakdown@ == y.breakdown@
        },
        _ => false,
    }
}

/// Two strictly sorted monthly series that list the same labels are the
/// same series, label by label.
proof fn lemma_sorted_labels_agree(a: Seq<MonthStat>, b: Seq<MonthStat>)
    requires
        forall|j: int, k: int|
            0 <= j < k < a.len() ==> lex_lt((#[trigger] a[j]).label@, (#[trigger] a[k]).label@),
        forall|j: int, k: int|
            0 <= j < k < b.len() ==> lex_lt((#[trigger] b[j]).label@, (#[trigger] b[k]).label@),
        forall|key: Seq<char>| #[trigger] has_label(a, key) <==> #[trigger] has_label(b, key),
    ensures
        a.len() == b.len(),
        forall|j: int| 0 <= j < a.len() ==> (#[trigger] a[j]).label@ == (#[trigger] b[j]).label@,
    decreases a.len(),
{
    if a.len() == 0 {
        if b.len() > 0 {
            assert(has_label(b, b[0].label@)) by {
                assert((b[0].label)@ == b[0].label@);
            }
            assert(has_label(a, b[0].label@));
            assert(false);
        }
    } else if b.len() == 0 {
        assert(has_label(a, a[0].label@)) by {
            assert((a[0].label)@ == a[0].label@);
        }
        assert(has_label(b, a[0].label@));
        assert(false);
    } else {
        assert(a[0].label@ == b[0].label@) by {
            lemma_lex_total(a[0].label@, b[0].label@);
            if lex_lt(a[0].label@, b[0].label@) {
                assert(has_label(a, a[0].label@)) by {
                    assert((a[0].label)@ == a[0].label@);
                }
                assert(has_label(b, a[0].label@));
                let j = choose|j: int|
                    0 <= j < b.len() && (#[trigger] b[j].label)@ == a[0].label@;
                lemma_lex_asymmetric(a[0].label@, b[0].label@);
                if j > 0 {
                    assert(lex_lt(b[0].label@, b[j].label@));
                    lemma_lex_transitive(a[0].label@, b[0].label@, b[j].label@);
                    lemma_lex_asymmetric(a[0].label@, b[j].label@);
                }
                assert(false);
            } else if lex_lt(b[0].label@, a[0].label@) {
                assert(has_label(b, b[0].label@)) by {
                    assert((b[0].label)@ == b[0].label@);
                }
                assert(has_label(a, b[0].label@));
                let j = choose|j: int|
                    0 <= j < a.len() && (#[trigger] a[j].label)@ == b[0].label@;
                lemma_lex_asymmetric(b[0].label@, a[0].label@);
                if j > 0 {
                    assert(lex_lt(a[0].label@, a[j].label@));
                    lemma_lex_transitive(b[0].label@, a[0].label@, a[j].label@);
                    lemma_lex_asymmetric(b[0].label@, a[j].label@);
                }
                assert(false);
            }
        }
        let ta = a.skip(1);
        let tb = b.skip(1);
        assert(forall|j: int| 0 <= j < ta.len() ==> ta[j] == a[j + 1]);
        assert(forall|j: int| 0 <= j < tb.len() ==> tb[j] == b[j + 1]);
        assert forall|key: Seq<char>| #[trigger] has_label(ta, key) <==> #[trigger] has_label(
            tb,
            key,
        ) by {
            if has_label(ta, key) {
                let j = choose|j: int|
                    0 <= j < ta.len() && (#[trigger] ta[j].label)@ == key;
                assert((a[j + 1].label)@ == key);
                assert(has_label(a, key));
                assert(has_label(b, key));
                let i = choose|i: int|
                    0 <= i < b.len() && (#[trigger] b[i].label)@ == key;
                assert(key != b[0].label@) by {
                    assert(lex_lt(a[0].label@, a[j + 1].label@));
                    lemma_lex_asymmetric(a[0].label@, a[j + 1].label@);
                }
                assert(i > 0);
                assert((tb[i - 1].label)@ == key);
                assert(has_label(tb, key));
            }
            if has_label(tb, key) {
                let j = choose|j: int|
                    0 <= j < tb.len() && (#[trigger] tb[j].label)@ == key;
                assert((b[j + 1].label)@ == key);
                assert(has_label(b, key));
                assert(has_label(a, key));
                let i = choose|i: int|
                    0 <= i < a.len() && (#[trigger] a[i].label)@ == key;
                assert(key != a[0].label@) by {
                    assert(lex_lt(b[0].label@, b[j + 1].label@));
                    lemma_lex_asymmetric(b[0].label@, b[j + 1].label@);
                }
                assert(i > 0);
                assert((ta[i - 1].label)@ == key);
                assert(has_label(ta, key));
            }
        }
        lemma_sorted_labels_agree(ta, tb);
        assert forall|j: int| 0 <= j < a.len() implies (#[trigger] a[j]).label@ == (
        #[trigger] b[j]).label@ by {
            if j > 0 {
                assert(ta[j - 1].label@ == tb[j - 1].label@);
            }
        }
    }
}

/// Determinism: any two responses that meet the engine's contract for the
/// same input agree in every observable field.  Since every run of the
/// engine meets the contract, re-running it on the same input reproduces
/// the same output.
pub proof fn lemma_engine_deterministic(
    txs: Seq<crate::model::Transaction>,
    params: Option<CompoundInterestParams>,
    r1: AnalyzeResponse,
    r2: AnalyzeResponse,
)
    requires
        response_matches(r1, txs, params),
        response_matches(r2, txs, params),
    ensures
        responses_equivalent(r1, r2),
{
    let a = r1.category_distribution@;
    let b = r2.category_distribution@;
    assert(shares_equivalent(a, b)) by {
        assert(crate::aggregate::share_keys(a) == crate::aggregate::share_keys(b));
        assert(crate::aggregate::share_keys(a).len() == a.len());
        assert(crate::aggregate::share_keys(b).len() == b.len());
        assert(a.len() == b.len());
        assert forall|j: int| 0 <= j < a.len() implies (#[trigger] a[j]).category@ == (
        #[trigger] b[j]).category@ && a[j].amount_cents == b[j].amount_cents by {
            assert(crate::aggregate::share_keys(a)[j] == a[j].category@);
            assert(crate::aggregate::share_keys(b)[j] == b[j].category@);
        }
    }
    let ma = r1.monthly_stats@;
    let mb = r2.monthly_stats@;
    assert forall|key: Seq<char>| #[trigger] has_label(ma, key) <==> #[trigger] has_label(
        mb,
        key,
    ) by {
        if has_label(ma, key) {
            let j = choose|j: int| 0 <= j < ma.len() && (#[trigger] ma[j].label)@ == key;
            assert(month_present(txs, ma[j].label@));
            assert(has_label(mb, key));
        }
        if has_label(mb, key) {
            let j = choose|j: int| 0 <= j < mb.len() && (#[trigger] mb[j].label)@ == key;
            assert(month_present(txs, mb[j].label@));
            assert(has_label(ma, key));
        }
    }
    lemma_sorted_labels_agree(ma, mb);
    assert(monthly_equivalent(ma, mb));
    match params {
        Option::None => {
        },
        Option::Some(p) => {
            let x = r1.compound_interest->0;
            let y = r2.compound_interest->0;
            assert(x.breakdown@ =~= y.breakdown@) by {
                assert forall|j: int| 0 <= j < x.breakdown@.len() implies x.breakdown@[j]
                    == y.breakdown@[j] by {
                    assert(point_matches(p, x.breakdown@[j], j));
                    assert(point_matches(p, y.breakdown@[j], j));
                }
            }
        },
    }
}

/// Boundary: a zero horizon (no whole compounding period) leaves the
/// principal untouched, earns no interest, and draws no growth curve.
pub proof fn lemma_zero_horizon_projection(p: CompoundInterestParams)
    requires
        params_valid(p),
        spec_total_periods(p) == 0,
    ensures
        spec_future_value_cents(p) == p.principal_cents,
        spec_total_interest_cents(p) == 0,
        spec_breakdown_len(p) == 0,
{
    lemma_rdiv_exact(p.principal_cents as int, CENT_NANOS as int);
    lemma_rdiv_exact(0, CENT_NANOS as int);
}

/// The growth curve never holds more than [`BREAKDOWN_CAP`] points,
/// whatever the parameters.
pub proof fn lemma_breakdown_capped(p: CompoundInterestParams)
    ensures
        spec_breakdown_len(p) <= BREAKDOWN_CAP,
{
}

/// Whenever the curve is not truncated by the cap, its last point is the
/// final period, even when that period falls off the sampling cadence.
/// (When more periods are sampled than the cap admits, the earliest ones
/// are kept and the final period is among those cut.)
pub proof fn lemma_final_period_on_curve(p: CompoundInterestParams)
    requires
        params_valid(p),
        spec_total_periods(p) >= 1,
        crate::interest::sampled_periods(
            spec_total_periods(p),
            crate::interest::spec_sample_step(p),
            spec_total_periods(p),
        ).len() <= BREAKDOWN_CAP,
    ensures
        spec_breakdown_len(p) >= 1,
        crate::interest::sampled_periods(
            spec_total_periods(p),
            crate::interest::spec_sample_step(p),
            spec_total_periods(p),
        )[spec_breakdown_len(p) - 1] == spec_total_periods(p),
{
    let total = spec_total_periods(p);
    let step = crate::interest::spec_sample_step(p);
    assert(crate::interest::period_sampled(total, total, step));
    assert(crate::interest::sampled_periods(total, step, total)
        == crate::interest::sampled_periods(total, step, total - 1).push(total));
}

} // verus!
