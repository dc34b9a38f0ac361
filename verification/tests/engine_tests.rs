use finmath::engine::analyze;
use finmath::model::{AnalyzeError, AnalyzeResponse, ParamField, Transaction, TxKind};

fn tx(name: &str, category: &str, amount_cents: i64, kind: TxKind, date: &str) -> Transaction {
    Transaction {
        name: name.to_string(),
        category: category.to_string(),
        amount_cents,
        kind,
        date: date.to_string(),
    }
}

fn run(txs: &Vec<Transaction>) -> AnalyzeResponse {
    analyze(txs, &None).unwrap()
}

#[test]
fn round_trip_scenario() {
    let txs = vec![
        tx("salary", "work", 100_000, TxKind::Income, "2024-01-05"),
        tx("groceries", "food", 30_000, TxKind::Expense, "2024-01-20"),
        tx("snacks", "food", 10_000, TxKind::Expense, "2024-02-01"),
    ];
    let r = run(&txs);
    assert_eq!(r.income_cents, 100_000);
    assert_eq!(r.expenses_cents, 40_000);
    assert_eq!(r.balance_cents, 60_000);
    assert_eq!(r.savings_rate_centi_pct, 6_000);
    assert_eq!(r.category_distribution.len(), 1);
    assert_eq!(r.category_distribution[0].category, "food");
    assert_eq!(r.category_distribution[0].amount_cents, 40_000);
    assert_eq!(r.monthly_stats.len(), 2);
    assert_eq!(r.monthly_stats[0].label, "2024-01");
    assert_eq!(r.monthly_stats[0].income_cents, 100_000);
    assert_eq!(r.monthly_stats[0].expense_cents, 30_000);
    assert_eq!(r.monthly_stats[1].label, "2024-02");
    assert_eq!(r.monthly_stats[1].income_cents, 0);
    assert_eq!(r.monthly_stats[1].expense_cents, 10_000);
    assert!(r.compound_interest.is_none());
}

#[test]
fn balance_is_income_minus_expenses() {
    let txs = vec![
        tx("gig", "work", 12_345, TxKind::Income, "2023-11-02"),
        tx("rent", "housing", 54_321, TxKind::Expense, "2023-11-03"),
    ];
    let r = run(&txs);
    assert_eq!(r.balance_cents, r.income_cents - r.expenses_cents);
    assert_eq!(r.balance_cents, 12_345 - 54_321);
}

#[test]
fn savings_rate_zero_without_income() {
    let txs = vec![
        tx("rent", "housing", 80_000, TxKind::Expense, "2024-03-01"),
        tx("food", "food", 20_000, TxKind::Expense, "2024-03-02"),
    ];
    let r = run(&txs);
    assert_eq!(r.income_cents, 0);
    assert_eq!(r.savings_rate_centi_pct, 0);
}

#[test]
fn savings_rate_with_negative_income_total() {
    // A lone negative income: the rate formula still applies since the
    // income total is not zero.  (-150.00 - 50.00) / -150.00 = 4/3.
    let txs = vec![
        tx("refund gone wrong", "work", -15_000, TxKind::Income, "2024-01-01"),
        tx("lunch", "food", 5_000, TxKind::Expense, "2024-01-02"),
    ];
    let r = run(&txs);
    assert_eq!(r.income_cents, -15_000);
    assert_eq!(r.expenses_cents, 5_000);
    // (income - expenses) / income * 100% = (-20000 / -15000) * 100% =
    // 133.33%, rounded to hundredths of a percent.
    assert_eq!(r.savings_rate_centi_pct, 13_333);
}

#[test]
fn expense_amounts_use_absolute_value() {
    let txs = vec![
        tx("cinema", "fun", -2_500, TxKind::Expense, "2024-05-10"),
        tx("popcorn", "fun", 1_500, TxKind::Expense, "2024-05-10"),
    ];
    let r = run(&txs);
    assert_eq!(r.expenses_cents, 4_000);
    assert_eq!(r.category_distribution[0].amount_cents, 4_000);
    assert_eq!(r.monthly_stats[0].expense_cents, 4_000);
}

#[test]
fn category_values_sum_to_expenses() {
    let txs = vec![
        tx("rent", "housing", 90_000, TxKind::Income, "2024-02-01"),
        tx("rent", "housing", 80_000, TxKind::Expense, "2024-02-01"),
        tx("food", "food", 20_000, TxKind::Expense, "2024-02-11"),
        tx("bus", "transport", 350, TxKind::Expense, "2024-03-07"),
        tx("more food", "food", 4_650, TxKind::Expense, "2024-03-09"),
    ];
    let r = run(&txs);
    let total: i128 = r.category_distribution.iter().map(|e| e.amount_cents).sum();
    assert_eq!(total, r.expenses_cents);
    for e in &r.category_distribution {
        assert!(e.amount_cents >= 0);
    }
    assert_eq!(r.category_distribution.len(), 3);
    // First-appearance order.
    assert_eq!(r.category_distribution[0].category, "housing");
    assert_eq!(r.category_distribution[1].category, "food");
    assert_eq!(r.category_distribution[2].category, "transport");
}

#[test]
fn monthly_keys_strictly_ascending_and_unique() {
    let txs = vec![
        tx("late", "misc", 100, TxKind::Expense, "2024-12-31"),
        tx("early", "misc", 100, TxKind::Expense, "2023-01-01"),
        tx("mid", "misc", 100, TxKind::Expense, "2024-03-15"),
        tx("early again", "misc", 100, TxKind::Expense, "2023-01-20"),
        tx("odd", "misc", 100, TxKind::Expense, "bad"),
    ];
    let r = run(&txs);
    let labels: Vec<&str> = r.monthly_stats.iter().map(|m| m.label.as_str()).collect();
    assert_eq!(labels, vec!["2023-01", "2024-03", "2024-12", "unknown"]);
    for w in labels.windows(2) {
        assert!(w[0] < w[1]);
    }
}

#[test]
fn short_dates_fall_into_unknown_bucket() {
    let txs = vec![
        tx("a", "misc", 1_000, TxKind::Income, "2024-0"),
        tx("b", "misc", 500, TxKind::Expense, ""),
        tx("c", "misc", 2_000, TxKind::Income, "2024-07"),
    ];
    let r = run(&txs);
    assert_eq!(r.monthly_stats.len(), 2);
    assert_eq!(r.monthly_stats[0].label, "2024-07");
    assert_eq!(r.monthly_stats[0].income_cents, 2_000);
    assert_eq!(r.monthly_stats[1].label, "unknown");
    assert_eq!(r.monthly_stats[1].income_cents, 1_000);
    assert_eq!(r.monthly_stats[1].expense_cents, 500);
}

#[test]
fn other_kind_only_instantiates_bucket() {
    let txs = vec![tx("transfer", "internal", 99_999, TxKind::Other, "2024-06-15")];
    let r = run(&txs);
    assert_eq!(r.income_cents, 0);
    assert_eq!(r.expenses_cents, 0);
    assert_eq!(r.balance_cents, 0);
    assert_eq!(r.savings_rate_centi_pct, 0);
    assert!(r.category_distribution.is_empty());
    assert_eq!(r.monthly_stats.len(), 1);
    assert_eq!(r.monthly_stats[0].label, "2024-06");
    assert_eq!(r.monthly_stats[0].income_cents, 0);
    assert_eq!(r.monthly_stats[0].expense_cents, 0);
}

#[test]
fn empty_transaction_list_yields_zeroed_response() {
    let r = run(&Vec::new());
    assert_eq!(r.income_cents, 0);
    assert_eq!(r.expenses_cents, 0);
    assert_eq!(r.balance_cents, 0);
    assert_eq!(r.savings_rate_centi_pct, 0);
    assert!(r.category_distribution.is_empty());
    assert!(r.monthly_stats.is_empty());
    assert!(r.compound_interest.is_none());
}

#[test]
fn rerunning_engine_reproduces_output() {
    let txs = vec![
        tx("salary", "work", 250_000, TxKind::Income, "2024-01-05"),
        tx("rent", "housing", 120_000, TxKind::Expense, "2024-01-06"),
        tx("food", "food", 30_000, TxKind::Expense, "2024-02-09"),
        tx("transfer", "internal", 10_000, TxKind::Other, "2024-03-01"),
    ];
    let params = Some(finmath::model::CompoundInterestParams {
        principal_cents: 100_000,
        annual_rate_nanos: 65_000_000,
        compounds_per_year: 12,
        years_centi: 200,
    });
    let r1 = analyze(&txs, &params).unwrap();
    let r2 = analyze(&txs, &params).unwrap();
    assert_eq!(r1.income_cents, r2.income_cents);
    assert_eq!(r1.expenses_cents, r2.expenses_cents);
    assert_eq!(r1.balance_cents, r2.balance_cents);
    assert_eq!(r1.savings_rate_centi_pct, r2.savings_rate_centi_pct);
    assert_eq!(r1.category_distribution.len(), r2.category_distribution.len());
    for (e1, e2) in r1.category_distribution.iter().zip(r2.category_distribution.iter()) {
        assert_eq!(e1.category, e2.category);
        assert_eq!(e1.amount_cents, e2.amount_cents);
    }
    assert_eq!(r1.monthly_stats.len(), r2.monthly_stats.len());
    for (m1, m2) in r1.monthly_stats.iter().zip(r2.monthly_stats.iter()) {
        assert_eq!(m1.label, m2.label);
        assert_eq!(m1.income_cents, m2.income_cents);
        assert_eq!(m1.expense_cents, m2.expense_cents);
    }
    let c1 = r1.compound_interest.unwrap();
    let c2 = r2.compound_interest.unwrap();
    assert_eq!(c1.future_value_cents, c2.future_value_cents);
    assert_eq!(c1.total_interest_cents, c2.total_interest_cents);
    assert_eq!(c1.principal_cents, c2.principal_cents);
    assert_eq!(c1.effective_rate_centi_pct, c2.effective_rate_centi_pct);
    assert_eq!(c1.breakdown.len(), c2.breakdown.len());
    for (p1, p2) in c1.breakdown.iter().zip(c2.breakdown.iter()) {
        assert_eq!(p1.period, p2.period);
        assert_eq!(p1.value_cents, p2.value_cents);
    }
}

#[test]
fn savings_rate_rounds_to_two_decimals() {
    // (300.00 - 100.00) / 300.00 = 66.666...% -> 66.67%.
    let txs = vec![
        tx("pay", "work", 30_000, TxKind::Income, "2024-04-01"),
        tx("food", "food", 10_000, TxKind::Expense, "2024-04-02"),
    ];
    let r = run(&txs);
    assert_eq!(r.savings_rate_centi_pct, 6_667);
}

#[test]
fn projection_flows_through_the_engine() {
    let txs = vec![tx("salary", "work", 100_000, TxKind::Income, "2024-01-05")];
    let params = Some(finmath::model::CompoundInterestParams {
        principal_cents: 100_000,
        annual_rate_nanos: 120_000_000,
        compounds_per_year: 12,
        years_centi: 100,
    });
    let r = analyze(&txs, &params).unwrap();
    let c = r.compound_interest.unwrap();
    assert_eq!(c.future_value_cents, 112_683);
    assert_eq!(c.total_interest_cents, 12_683);
    assert_eq!(c.principal_cents, 100_000);
    assert_eq!(c.effective_rate_centi_pct, 1_268);
    assert_eq!(c.breakdown.len(), 12);
}

#[test]
fn rejected_parameters_name_the_field() {
    let txs: Vec<Transaction> = Vec::new();
    let zero_n = finmath::model::CompoundInterestParams {
        principal_cents: 100_000,
        annual_rate_nanos: 65_000_000,
        compounds_per_year: 0,
        years_centi: 100,
    };
    assert_eq!(
        analyze(&txs, &Some(zero_n)).unwrap_err(),
        AnalyzeError::InvalidParameter(ParamField::CompoundsPerYear)
    );
    let negative_principal = finmath::model::CompoundInterestParams {
        principal_cents: -1,
        annual_rate_nanos: 65_000_000,
        compounds_per_year: 12,
        years_centi: 100,
    };
    assert_eq!(
        analyze(&txs, &Some(negative_principal)).unwrap_err(),
        AnalyzeError::InvalidParameter(ParamField::Principal)
    );
    let wild_rate = finmath::model::CompoundInterestParams {
        principal_cents: 100_000,
        annual_rate_nanos: 200_000_000_000,
        compounds_per_year: 12,
        years_centi: 100,
    };
    assert_eq!(
        analyze(&txs, &Some(wild_rate)).unwrap_err(),
        AnalyzeError::InvalidParameter(ParamField::Rate)
    );
    let endless_horizon = finmath::model::CompoundInterestParams {
        principal_cents: 100_000,
        annual_rate_nanos: 65_000_000,
        compounds_per_year: 365,
        years_centi: 10_000_000,
    };
    assert_eq!(
        analyze(&txs, &Some(endless_horizon)).unwrap_err(),
        AnalyzeError::InvalidParameter(ParamField::Years)
    );
}
