//! Aggregation engine: one forward pass over the transaction list.
//!
//! The pass accumulates the income and expense totals, the per-category
//! expense distribution, and a month-keyed series of income/expense pairs.
//! All reductions are commutative sums over integer cents, stated here as
//! recursive spec functions over the transaction sequence.

use vstd::prelude::*;
use vstd::string::StrSliceExecFns;

use crate::lex::{lemma_lex_asymmetric, lemma_lex_total, lemma_lex_transitive, lex_lt, str_lex_lt};
use crate::model::{CategoryShare, MonthStat, Transaction, TxKind};

verus! {

/// Magnitude bound of one transaction amount in cents (`|i64::MIN|`).
pub const AMOUNT_LIMIT: i128 = 9_223_372_036_854_775_808;

/// Largest transaction count the engine accepts; keeps every running total
/// well inside `i128` even when each amount is as large as an `i64` holds.
pub const MAX_TRANSACTIONS: u64 = 1_000_000_000_000;

/// Absolute value in cents.
pub open spec fn abs_cents(a: int) -> int {
    if a < 0 {
        -a
    } else {
        a
    }
}

/// What a transaction adds to the income total.
pub open spec fn tx_income(t: Transaction) -> int {
    if t.kind == TxKind::Income {
        t.amount_cents as int
    } else {
        0
    }
}

/// What a transaction adds to the expense total: the absolute amount, for
/// expense-kind transactions only.
pub open spec fn tx_expense(t: Transaction) -> int {
    if t.kind == TxKind::Expense {
        abs_cents(t.amount_cents as int)
    } else {
        0
    }
}

/// The monthly bucket a date string falls into: its first seven characters
/// ("YYYY-MM"), or the sentinel "unknown" when the date is shorter.
pub open spec fn month_key(date: Seq<char>) -> Seq<char> {
    if date.len() >= 7 {
        date.take(7)
    } else {
        "unknown"@
    }
}

/// What a transaction adds to the income side of bucket `k`.
pub open spec fn tx_month_income(t: Transaction, k: Seq<char>) -> int {
    if month_key(t.date@) == k {
        tx_income(t)
    } else {
        0
    }
}

/// What a transaction adds to the expense side of bucket `k`.
pub open spec fn tx_month_expense(t: Transaction, k: Seq<char>) -> int {
    if month_key(t.date@) == k {
        tx_expense(t)
    } else {
        0
    }
}

/// What a transaction adds to the distribution entry of category `c`.
pub open spec fn tx_category(t: Transaction, c: Seq<char>) -> int {
    if t.kind == TxKind::Expense && t.category@ == c {
        abs_cents(t.amount_cents as int)
    } else {
        0
    }
}

/// Total income of a transaction sequence, in cents.
pub open spec fn income_total(s: Seq<Transaction>) -> int
    decreases s.len(),
{
    if s.len() == 0 {
        0
    } else {
        income_total(s.drop_last()) + tx_income(s.last())
    }
}

/// Total absolute expenses of a transaction sequence, in cents.
pub open spec fn expense_total(s: Seq<Transaction>) -> int
    decreases s.len(),
{
    if s.len() == 0 {
        0
    } else {
        expense_total(s.drop_last()) + tx_expense(s.last())
    }
}

/// Cumulative absolute spend in category `c`.
pub open spec fn category_total(s: Seq<Transaction>, c: Seq<char>) -> int
    decreases s.len(),
{
    if s.len() == 0 {
        0
    } else {
        category_total(s.drop_last(), c) + tx_category(s.last(), c)
    }
}

/// Summed income of monthly bucket `k`.
pub open spec fn month_income(s: Seq<Transaction>, k: Seq<char>) -> int
    decreases s.len(),
{
    if s.len() == 0 {
        0
    } else {
        month_income(s.drop_last(), k) + tx_month_income(s.last(), k)
    }
}

/// Summed absolute expense of monthly bucket `k`.
pub open spec fn month_expense(s: Seq<Transaction>, k: Seq<char>) -> int
    decreases s.len(),
{
    if s.len() == 0 {
        0
    } else {
        month_expense(s.drop_last(), k) + tx_month_expense(s.last(), k)
    }
}

/// Whether some expense-kind transaction carries category `c`.
pub open spec fn category_present(s: Seq<Transaction>, c: Seq<char>) -> bool {
    exists|i: int|
        0 <= i < s.len() && #[trigger] s[i].kind == TxKind::Expense && s[i].category@ == c
}

/// Whether some transaction falls into monthly bucket `k`.
pub open spec fn month_present(s: Seq<Transaction>, k: Seq<char>) -> bool {
    exists|i: int| 0 <= i < s.len() && month_key(#[trigger] s[i].date@) == k
}

/// The distinct expense categories in order of first appearance: the order
/// in which the distribution lists them.
pub open spec fn category_keys(s: Seq<Transaction>) -> Seq<Seq<char>>
    decreases s.len(),
{
    if s.len() == 0 {
        Seq::empty()
    } else {
        let rest = category_keys(s.drop_last());
        let t = s.last();
        if t.kind == TxKind::Expense && !rest.contains(t.category@) {
            rest.push(t.category@)
        } else {
            rest
        }
    }
}

/// The category labels of a distribution, in order.
pub open spec fn share_keys(cs: Seq<CategoryShare>) -> Seq<Seq<char>> {
    cs.map_values(|e: CategoryShare| e.category@)
}

/// Sum of all distribution values, in cents.
pub open spec fn sum_shares(cs: Seq<CategoryShare>) -> int
    decreases cs.len(),
{
    if cs.len() == 0 {
        0
    } else {
        sum_shares(cs.drop_last()) + cs.last().amount_cents
    }
}

/// Whether the distribution has an entry for category `c`.
pub open spec fn has_share(cs: Seq<CategoryShare>, c: Seq<char>) -> bool {
    exists|j: int| 0 <= j < cs.len() && (#[trigger] cs[j].category)@ == c
}

/// Whether the monthly series has an entry labelled `k`.
pub open spec fn has_label(ms: Seq<MonthStat>, k: Seq<char>) -> bool {
    exists|j: int| 0 <= j < ms.len() && (#[trigger] ms[j].label)@ == k
}

/// Extending the sequence by one transaction extends every sum by that
/// transaction's contribution, and the key list by its category when new.
pub proof fn lemma_totals_push(s: Seq<Transaction>, t: Transaction)
    ensures
        income_total(s.push(t)) == income_total(s) + tx_income(t),
        expense_total(s.push(t)) == expense_total(s) + tx_expense(t),
        forall|c: Seq<char>|
            #[trigger] category_total(s.push(t), c) == category_total(s, c) + tx_category(t, c),
        forall|k: Seq<char>|
            #[trigger] month_income(s.push(t), k) == month_income(s, k) + tx_month_income(t, k),
        forall|k: Seq<char>|
            #[trigger] month_expense(s.push(t), k) == month_expense(s, k) + tx_month_expense(
                t,
                k,
            ),
        category_keys(s.push(t)) == (if t.kind == TxKind::Expense && !category_keys(s).contains(
            t.category@,
        ) {
            category_keys(s).push(t.category@)
        } else {
            category_keys(s)
        }),
{
    assert(s.push(t).drop_last() =~= s);
    assert(s.push(t).last() == t);
}

/// Magnitude bounds of the running totals: each transaction moves a total
/// by at most [`AMOUNT_LIMIT`].
pub proof fn lemma_totals_bounded(s: Seq<Transaction>)
    ensures
        -(s.len() * AMOUNT_LIMIT) <= income_total(s) <= s.len() * AMOUNT_LIMIT,
        0 <= expense_total(s) <= s.len() * AMOUNT_LIMIT,
    decreases s.len(),
{
    if s.len() > 0 {
        lemma_totals_bounded(s.drop_last());
    }
}

/// A category's total never exceeds the expense total, and a bucket's sums
/// stay within the totals' bounds.
pub proof fn lemma_component_bounds(s: Seq<Transaction>, key: Seq<char>)
    ensures
        0 <= category_total(s, key) <= expense_total(s),
        0 <= month_expense(s, key) <= expense_total(s),
        -(s.len() * AMOUNT_LIMIT) <= month_income(s, key) <= s.len() * AMOUNT_LIMIT,
    decreases s.len(),
{
    if s.len() > 0 {
        lemma_component_bounds(s.drop_last(), key);
    }
}

/// A category no transaction carries has a zero total; a bucket no
/// transaction falls into has zero sums.
pub proof fn lemma_absent_zero(s: Seq<Transaction>, key: Seq<char>)
    ensures
        !category_present(s, key) ==> category_total(s, key) == 0,
        !month_present(s, key) ==> month_income(s, key) == 0 && month_expense(s, key) == 0,
    decreases s.len(),
{
    if s.len() > 0 {
        lemma_absent_zero(s.drop_last(), key);
        if !category_present(s, key) {
            assert(!category_present(s.drop_last(), key)) by {
                if category_present(s.drop_last(), key) {
                    let i = choose|i: int|
                        0 <= i < s.drop_last().len() && #[trigger] s.drop_last()[i].kind
                            == TxKind::Expense && s.drop_last()[i].category@ == key;
                    assert(s[i].kind == TxKind::Expense && s[i].category@ == key);
                }
            }
            assert(tx_category(s.last(), key) == 0) by {
                if s.last().kind == TxKind::Expense && s.last().category@ == key {
                    assert(s[s.len() - 1].kind == TxKind::Expense && s[s.len() - 1].category@
                        == key);
                }
            }
        }
        if !month_present(s, key) {
            assert(!month_present(s.drop_last(), key)) by {
                if month_present(s.drop_last(), key) {
                    let i = choose|i: int|
                        0 <= i < s.drop_last().len() && month_key(
                            #[trigger] s.drop_last()[i].date@,
                        ) == key;
                    assert(month_key(s[i].date@) == key);
                }
            }
            assert(tx_month_income(s.last(), key) == 0 && tx_month_expense(s.last(), key) == 0)
                by {
                if month_key(s.last().date@) == key {
                    assert(month_key(s[s.len() - 1].date@) == key);
                }
            }
        }
    }
}

/// Appending a share adds its value to the distribution sum.
pub proof fn lemma_sum_shares_push(cs: Seq<CategoryShare>, e: CategoryShare)
    ensures
        sum_shares(cs.push(e)) == sum_shares(cs) + e.amount_cents,
{
    assert(cs.push(e).drop_last() =~= cs);
    assert(cs.push(e).last() == e);
}

/// Replacing one share moves the distribution sum by the difference.
pub proof fn lemma_sum_shares_update(cs: Seq<CategoryShare>, j: int, e: CategoryShare)
    requires
        0 <= j < cs.len(),
    ensures
        sum_shares(cs.update(j, e)) == sum_shares(cs) - cs[j].amount_cents + e.amount_cents,
    decreases cs.len(),
{
    if j == cs.len() - 1 {
        assert(cs.update(j, e).drop_last() =~= cs.drop_last());
        assert(cs.update(j, e).last() == e);
    } else {
        assert(cs.update(j, e).drop_last() =~= cs.drop_last().update(j, e));
        assert(cs.update(j, e).last() == cs.last());
        lemma_sum_shares_update(cs.drop_last(), j, e);
    }
}

/// A distribution of non-negative shares has a non-negative sum.
pub proof fn lemma_sum_shares_nonneg(cs: Seq<CategoryShare>)
    requires
        forall|k: int| 0 <= k < cs.len() ==> (#[trigger] cs[k]).amount_cents >= 0,
    ensures
        sum_shares(cs) >= 0,
    decreases cs.len(),
{
    if cs.len() > 0 {
        assert(forall|k: int|
            0 <= k < cs.drop_last().len() ==> (#[trigger] cs.drop_last()[k]).amount_cents >= 0);
        lemma_sum_shares_nonneg(cs.drop_last());
    }
}

/// When every share is non-negative, each one is bounded by the sum.
pub proof fn lemma_sum_shares_entry_bound(cs: Seq<CategoryShare>, j: int)
    requires
        0 <= j < cs.len(),
        forall|k: int| 0 <= k < cs.len() ==> (#[trigger] cs[k]).amount_cents >= 0,
    ensures
        cs[j].amount_cents <= sum_shares(cs),
        sum_shares(cs) >= 0,
    decreases cs.len(),
{
    lemma_sum_shares_nonneg(cs);
    assert(forall|k: int|
        0 <= k < cs.drop_last().len() ==> (#[trigger] cs.drop_last()[k]).amount_cents >= 0);
    if j == cs.len() - 1 {
        lemma_sum_shares_nonneg(cs.drop_last());
    } else {
        lemma_sum_shares_entry_bound(cs.drop_last(), j);
        assert(cs.drop_last()[j] == cs[j]);
    }
}

/// The label list of a distribution holds a category exactly when some
/// entry carries it.
pub proof fn lemma_share_keys_contains(cs: Seq<CategoryShare>, c: Seq<char>)
    ensures
        share_keys(cs).contains(c) <==> has_share(cs, c),
{
    if share_keys(cs).contains(c) {
        let j = choose|j: int| 0 <= j < share_keys(cs).len() && share_keys(cs)[j] == c;
        assert(cs[j].category@ == c);
    }
    if has_share(cs, c) {
        let j = choose|j: int| 0 <= j < cs.len() && (#[trigger] cs[j].category)@ == c;
        assert(share_keys(cs)[j] == c);
    }
}

/// What one pass over the transaction list produces: totals, category
/// distribution, and the sorted monthly series.
pub struct Aggregates {
    pub income_cents: i128,
    pub expenses_cents: i128,
    pub category_distribution: Vec<CategoryShare>,
    pub monthly_stats: Vec<MonthStat>,
}

/// Builds the monthly bucket key of a date string.
pub fn month_key_of(date: &str) -> (r: String)
    ensures
        r@ == month_key(date@),
{
    if date.unicode_len() >= 7 {
        let sub = date.substring_char(0, 7);
        proof {
            assert(date@.subrange(0, 7) =~= date@.take(7));
        }
        sub.to_owned()
    } else {
        "unknown".to_owned()
    }
}

/// The distribution invariant the aggregation pass maintains: labels are
/// the distinct expense categories in first-appearance order, each entry
/// holds its category's (non-negative) total, the values sum to the expense
/// total, and every category with an expense has an entry.
pub open spec fn distribution_matches(cs: Seq<CategoryShare>, s: Seq<Transaction>) -> bool {
    &&& share_keys(cs) == category_keys(s)
    &&& forall|j: int|
        0 <= j < cs.len() ==> {
            let e = #[trigger] cs[j];
            e.amount_cents == category_total(s, e.category@) && e.amount_cents >= 0
        }
    &&& forall|j: int, k: int|
        0 <= j < k < cs.len() ==> (#[trigger] cs[j]).category@ != (#[trigger] cs[k]).category@
    &&& sum_shares(cs) == expense_total(s)
    &&& forall|c: Seq<char>| #[trigger] category_present(s, c) ==> has_share(cs, c)
}

/// The monthly-series invariant the aggregation pass maintains: labels are
/// strictly ascending, each entry holds its bucket's sums, every entry's
/// bucket is inhabited, and every inhabited bucket has an entry.
pub open spec fn monthly_matches(ms: Seq<MonthStat>, s: Seq<Transaction>) -> bool {
    &&& forall|j: int, k: int|
        0 <= j < k < ms.len() ==> lex_lt((#[trigger] ms[j]).label@, (#[trigger] ms[k]).label@)
    &&& forall|j: int|
        0 <= j < ms.len() ==> {
            let e = #[trigger] ms[j];
            e.income_cents == month_income(s, e.label@) && e.expense_cents == month_expense(
                s,
                e.label@,
            ) && month_present(s, e.label@)
        }
    &&& forall|k: Seq<char>| #[trigger] month_present(s, k) ==> has_label(ms, k)
}

/// Adds one expense's absolute amount to its category's entry, appending a
/// new entry when the category is new.
#[verifier::loop_isolation(false)]
#[verifier::rlimit(100)]
fn upsert_category(
    cats: &mut Vec<CategoryShare>,
    category: &String,
    amount: i128,
    Ghost(prefix): Ghost<Seq<Transaction>>,
    Ghost(t): Ghost<Transaction>,
)
    requires
        distribution_matches(old(cats)@, prefix),
        prefix.len() < MAX_TRANSACTIONS,
        t.kind == TxKind::Expense,
        t.category@ == category@,
        amount == abs_cents(t.amount_cents as int),
    ensures
        distribution_matches(final(cats)@, prefix.push(t)),
{
    proof {
        lemma_totals_push(prefix, t);
        lemma_totals_bounded(prefix);
    }
    let mut cj: usize = 0;
    let mut cfound: bool = false;
    let mut cpos: usize = 0;
    let clen: usize = cats.len();
    while cj < clen
        invariant
            cj <= clen,
            clen == cats@.len(),
            cfound ==> cpos < clen && cats@[cpos as int].category@ == t.category@,
            !cfound ==> forall|k: int|
                0 <= k < cj ==> (#[trigger] cats@[k]).category@ != t.category@,
        decreases clen - cj,
    {
        if !cfound {
            if cats[cj].category == *category {
                cfound = true;
                cpos = cj;
            }
        }
        cj = cj + 1;
    }
    if cfound {
        let ghost cats_old = cats@;
        proof {
            lemma_sum_shares_entry_bound(cats@, cpos as int);
            lemma_component_bounds(prefix, t.category@);
        }
        let old_amt: i128 = cats[cpos].amount_cents;
        let lbl = cats[cpos].category.clone();
        cats[cpos] = CategoryShare { category: lbl, amount_cents: old_amt + amount };
        proof {
            lemma_sum_shares_update(cats_old, cpos as int, cats@[cpos as int]);
            assert(share_keys(cats@) =~= share_keys(cats_old));
            assert(has_share(cats_old, t.category@)) by {
                assert(cats_old[cpos as int].category@ == t.category@);
            }
            lemma_share_keys_contains(cats_old, t.category@);
            assert(category_keys(prefix.push(t)) == category_keys(prefix));
            assert forall|j: int| 0 <= j < cats@.len() implies {
                let e = #[trigger] cats@[j];
                e.amount_cents == category_total(prefix.push(t), e.category@)
                    && e.amount_cents >= 0
            } by {
                if j != cpos {
                    assert(cats@[j] == cats_old[j]);
                    assert(cats@[j].category@ != t.category@) by {
                        if j < cpos {
                            assert(cats_old[j].category@ != cats_old[cpos as int].category@);
                        } else {
                            assert(cats_old[cpos as int].category@ != cats_old[j].category@);
                        }
                    }
                    assert(tx_category(t, cats@[j].category@) == 0);
                }
            }
            assert forall|c: Seq<char>| #[trigger] category_present(
                prefix.push(t),
                c,
            ) implies has_share(cats@, c) by {
                if c == t.category@ {
                    assert(cats@[cpos as int].category@ == c);
                } else {
                    let i = choose|i: int|
                        0 <= i < prefix.push(t).len() && #[trigger] prefix.push(t)[i].kind
                            == TxKind::Expense && prefix.push(t)[i].category@ == c;
                    assert(prefix[i] == prefix.push(t)[i]);
                    assert(category_present(prefix, c));
                    let j = choose|j: int|
                        0 <= j < cats_old.len() && (#[trigger] cats_old[j].category)@ == c;
                    assert(cats@[j].category@ == c);
                }
            }
        }
    } else {
        proof {
            assert(!has_share(cats@, t.category@)) by {
                if has_share(cats@, t.category@) {
                    let j = choose|j: int|
                        0 <= j < cats@.len() && (#[trigger] cats@[j].category)@ == t.category@;
                    assert(cats@[j].category@ != t.category@);
                }
            }
            lemma_share_keys_contains(cats@, t.category@);
            assert(!category_present(prefix, t.category@)) by {
                if category_present(prefix, t.category@) {
                    assert(has_share(cats@, t.category@));
                }
            }
            lemma_absent_zero(prefix, t.category@);
        }
        let ghost cats_old = cats@;
        let new_lbl = category.clone();
        cats.push(CategoryShare { category: new_lbl, amount_cents: amount });
        proof {
            lemma_sum_shares_push(cats_old, cats@.last());
            assert(share_keys(cats@) =~= share_keys(cats_old).push(t.category@));
            assert forall|j: int| 0 <= j < cats@.len() implies {
                let e = #[trigger] cats@[j];
                e.amount_cents == category_total(prefix.push(t), e.category@)
                    && e.amount_cents >= 0
            } by {
                if j < cats@.len() - 1 {
                    assert(cats@[j] == cats_old[j]);
                    assert(cats@[j].category@ != t.category@) by {
                        if has_share(cats_old, cats_old[j].category@) {
                        }
                        assert(cats_old[j].category@ == cats_old[j].category@);
                        if cats_old[j].category@ == t.category@ {
                            assert(has_share(cats_old, t.category@)) by {
                                assert(cats_old[j].category@ == t.category@);
                            }
                        }
                    }
                    assert(tx_category(t, cats@[j].category@) == 0);
                } else {
                    assert(cats@[j].category@ == t.category@);
                    assert(category_total(prefix, t.category@) == 0);
                }
            }
            assert forall|j: int, k: int| 0 <= j < k < cats@.len() implies (
            #[trigger] cats@[j]).category@ != (#[trigger] cats@[k]).category@ by {
                if k == cats@.len() - 1 {
                    if cats@[j].category@ == t.category@ {
                        assert(has_share(cats_old, t.category@)) by {
                            assert(cats_old[j].category@ == t.category@);
                        }
                    }
                } else {
                    assert(cats@[j] == cats_old[j] && cats@[k] == cats_old[k]);
                }
            }
            assert forall|c: Seq<char>| #[trigger] category_present(
                prefix.push(t),
                c,
            ) implies has_share(cats@, c) by {
                if c == t.category@ {
                    assert(cats@[cats@.len() - 1].category@ == c);
                } else {
                    let i = choose|i: int|
                        0 <= i < prefix.push(t).len() && #[trigger] prefix.push(t)[i].kind
                            == TxKind::Expense && prefix.push(t)[i].category@ == c;
                    assert(prefix[i] == prefix.push(t)[i]);
                    assert(category_present(prefix, c));
                    let j = choose|j: int|
                        0 <= j < cats_old.len() && (#[trigger] cats_old[j].category)@ == c;
                    assert(cats@[j].category@ == c);
                }
            }
        }
    }
}

/// Adds one transaction's contributions to its monthly bucket, inserting
/// the bucket at its sorted position when it is new.
#[verifier::loop_isolation(false)]
#[verifier::rlimit(100)]
fn upsert_month(
    months: &mut Vec<MonthStat>,
    key: String,
    inc_add: i128,
    exp_add: i128,
    Ghost(prefix): Ghost<Seq<Transaction>>,
    Ghost(t): Ghost<Transaction>,
)
    requires
        monthly_matches(old(months)@, prefix),
        prefix.len() < MAX_TRANSACTIONS,
        key@ == month_key(t.date@),
        inc_add == tx_income(t),
        exp_add == tx_expense(t),
    ensures
        monthly_matches(final(months)@, prefix.push(t)),
{
    proof {
        lemma_totals_push(prefix, t);
        assert(tx_month_income(t, key@) == inc_add);
        assert(tx_month_expense(t, key@) == exp_add);
    }
    let ghost prefix2 = prefix.push(t);
    let mlen: usize = months.len();
    let mut j2: usize = 0;
    let mut mfound: bool = false;
    let mut decided: bool = false;
    let mut pos: usize = 0;
    while j2 < mlen
        invariant
            j2 <= mlen,
            mlen == months@.len(),
            mfound ==> decided,
            !decided ==> forall|k: int|
                0 <= k < j2 ==> lex_lt((#[trigger] months@[k]).label@, key@),
            decided ==> pos < mlen,
            decided && mfound ==> months@[pos as int].label@ == key@,
            decided && !mfound ==> lex_lt(key@, months@[pos as int].label@) && forall|k: int|
                0 <= k < pos ==> lex_lt((#[trigger] months@[k]).label@, key@),
            forall|j: int, k: int|
                0 <= j < k < months@.len() ==> lex_lt(
                    (#[trigger] months@[j]).label@,
                    (#[trigger] months@[k]).label@,
                ),
        decreases mlen - j2,
    {
        if !decided {
            if months[j2].label == key {
                decided = true;
                mfound = true;
                pos = j2;
            } else if str_lex_lt(key.as_str(), months[j2].label.as_str()) {
                decided = true;
                pos = j2;
            } else {
                proof {
                    lemma_lex_total(months@[j2 as int].label@, key@);
                }
            }
        }
        j2 = j2 + 1;
    }

    if mfound {
        let ghost months_old = months@;
        proof {
            lemma_component_bounds(prefix, key@);
            lemma_totals_bounded(prefix);
        }
        let old_inc: i128 = months[pos].income_cents;
        let old_exp: i128 = months[pos].expense_cents;
        let lbl2 = months[pos].label.clone();
        months[pos] = MonthStat {
            label: lbl2,
            income_cents: old_inc + inc_add,
            expense_cents: old_exp + exp_add,
        };
        proof {
            assert(forall|k: int|
                0 <= k < months@.len() ==> (#[trigger] months@[k]).label@ == months_old[
                    k].label@);
            assert forall|j: int| 0 <= j < months@.len() implies {
                let e = #[trigger] months@[j];
                e.income_cents == month_income(prefix2, e.label@) && e.expense_cents
                    == month_expense(prefix2, e.label@) && month_present(prefix2, e.label@)
            } by {
                if j != pos {
                    assert(months@[j] == months_old[j]);
                    assert(months@[j].label@ != key@) by {
                        if j < pos {
                            lemma_lex_asymmetric(months_old[j].label@, key@);
                        } else {
                            lemma_lex_asymmetric(key@, months_old[j].label@);
                        }
                    }
                    assert(tx_month_income(t, months@[j].label@) == 0);
                    assert(tx_month_expense(t, months@[j].label@) == 0);
                } else {
                    assert(month_present(prefix2, key@)) by {
                        assert(month_key(prefix2[prefix.len() as int].date@) == key@);
                    }
                }
                assert(month_present(prefix, months_old[j].label@) ==> month_present(
                    prefix2,
                    months_old[j].label@,
                )) by {
                    if month_present(prefix, months_old[j].label@) {
                        let i = choose|i: int|
                            0 <= i < prefix.len() && month_key(#[trigger] prefix[i].date@)
                                == months_old[j].label@;
                        assert(month_key(prefix2[i].date@) == months_old[j].label@);
                    }
                }
            }
            assert forall|k: Seq<char>| #[trigger] month_present(prefix2, k) implies has_label(
                months@,
                k,
            ) by {
                if k == key@ {
                    assert(months@[pos as int].label@ == key@);
                } else {
                    let i = choose|i: int|
                        0 <= i < prefix2.len() && month_key(#[trigger] prefix2[i].date@) == k;
                    assert(prefix2[i] == prefix[i]);
                    assert(month_present(prefix, k));
                    let j = choose|j: int|
                        0 <= j < months_old.len() && (#[trigger] months_old[j].label)@ == k;
                    assert(months@[j].label@ == k);
                }
            }
        }
    } else {
        let ins_pos: usize = if decided {
            pos
        } else {
            mlen
        };
        proof {
            assert forall|k: int| ins_pos <= k < months@.len() implies lex_lt(
                key@,
                (#[trigger] months@[k]).label@,
            ) by {
                if k > pos {
                    lemma_lex_transitive(key@, months@[pos as int].label@, months@[k].label@);
                }
            }
            assert(!has_label(months@, key@)) by {
                if has_label(months@, key@) {
                    let j = choose|j: int|
                        0 <= j < months@.len() && (#[trigger] months@[j].label)@ == key@;
                    if j < ins_pos {
                        lemma_lex_asymmetric(months@[j].label@, key@);
                    } else {
                        lemma_lex_asymmetric(key@, months@[j].label@);
                    }
                }
            }
            assert(!month_present(prefix, key@)) by {
                if month_present(prefix, key@) {
                    assert(has_label(months@, key@));
                }
            }
            lemma_absent_zero(prefix, key@);
        }
        let ghost months_old = months@;
        months.insert(
            ins_pos,
            MonthStat { label: key, income_cents: inc_add, expense_cents: exp_add },
        );
        proof {
            months_old.insert_ensures(ins_pos as int, months@[ins_pos as int]);
            assert(months@[ins_pos as int].label@ == key@);
            assert forall|j: int, k: int| 0 <= j < k < months@.len() implies lex_lt(
                (#[trigger] months@[j]).label@,
                (#[trigger] months@[k]).label@,
            ) by {
                if j < ins_pos && k == ins_pos {
                    assert(months@[j] == months_old[j]);
                } else if j == ins_pos && k > ins_pos {
                    assert(months@[k] == months_old[k - 1]);
                } else if j < ins_pos && k > ins_pos {
                    assert(months@[j] == months_old[j]);
                    assert(months@[k] == months_old[k - 1]);
                    if k - 1 == j {
                        assert(lex_lt(months_old[j].label@, key@));
                        assert(lex_lt(key@, months_old[j].label@));
                    }
                } else if k < ins_pos {
                    assert(months@[j] == months_old[j]);
                    assert(months@[k] == months_old[k]);
                } else if j > ins_pos {
                    assert(months@[j] == months_old[j - 1]);
                    assert(months@[k] == months_old[k - 1]);
                }
            }
            assert forall|j: int| 0 <= j < months@.len() implies {
                let e = #[trigger] months@[j];
                e.income_cents == month_income(prefix2, e.label@) && e.expense_cents
                    == month_expense(prefix2, e.label@) && month_present(prefix2, e.label@)
            } by {
                if j == ins_pos {
                    assert(month_present(prefix2, key@)) by {
                        assert(month_key(prefix2[prefix.len() as int].date@) == key@);
                    }
                } else {
                    let e = if j < ins_pos {
                        months_old[j]
                    } else {
                        months_old[j - 1]
                    };
                    assert(months@[j] == e);
                    assert(e.label@ != key@) by {
                        if j < ins_pos {
                            lemma_lex_asymmetric(e.label@, key@);
                        } else {
                            lemma_lex_asymmetric(key@, e.label@);
                        }
                    }
                    assert(tx_month_income(t, e.label@) == 0);
                    assert(tx_month_expense(t, e.label@) == 0);
                    assert(month_present(prefix2, e.label@)) by {
                        let i = choose|i: int|
                            0 <= i < prefix.len() && month_key(#[trigger] prefix[i].date@)
                                == e.label@;
                        assert(month_key(prefix2[i].date@) == e.label@);
                    }
                }
            }
            assert forall|k: Seq<char>| #[trigger] month_present(prefix2, k) implies has_label(
                months@,
                k,
            ) by {
                if k == key@ {
                    assert(months@[ins_pos as int].label@ == key@);
                } else {
                    let i = choose|i: int|
                        0 <= i < prefix2.len() && month_key(#[trigger] prefix2[i].date@) == k;
                    assert(prefix2[i] == prefix[i]);
                    assert(month_present(prefix, k));
                    let j = choose|j: int|
                        0 <= j < months_old.len() && (#[trigger] months_old[j].label)@ == k;
                    if j < ins_pos {
                        assert(months@[j].label@ == k);
                    } else {
                        assert(months@[j + 1].label@ == k);
                    }
                }
            }
        }
    }
}

/// Single forward pass over the transactions.
///
/// Income-kind amounts go to the income total and the income side of their
/// monthly bucket; expense-kind amounts go, as absolute values, to the
/// expense total, their category's entry and the expense side of their
/// bucket; any other kind only instantiates its bucket.  The monthly series
/// comes out strictly sorted by label; the distribution lists categories in
/// order of first appearance.
#[verifier::loop_isolation(false)]
#[verifier::rlimit(100)]
pub fn aggregate(txs: &Vec<Transaction>) -> (r: Aggregates)
    requires
        txs@.len() <= MAX_TRANSACTIONS,
    ensures
        r.income_cents == income_total(txs@),
        r.expenses_cents == expense_total(txs@),
        r.expenses_cents >= 0,
        distribution_matches(r.category_distribution@, txs@),
        monthly_matches(r.monthly_stats@, txs@),
{
    let n: usize = txs.len();
    let mut income: i128 = 0;
    let mut expenses: i128 = 0;
    let mut cats: Vec<CategoryShare> = Vec::new();
    let mut months: Vec<MonthStat> = Vec::new();
    let mut idx: usize = 0;

    proof {
        assert(txs@.take(0) =~= Seq::<Transaction>::empty());
        assert(share_keys(cats@) =~= category_keys(txs@.take(0)));
    }

    while idx < n
        invariant
            idx <= n,
            income == income_total(txs@.take(idx as int)),
            expenses == expense_total(txs@.take(idx as int)),
            distribution_matches(cats@, txs@.take(idx as int)),
            monthly_matches(months@, txs@.take(idx as int)),
        decreases n - idx,
    {
        let ghost prefix = txs@.take(idx as int);
        let ghost tx_g = txs@[idx as int];
        proof {
            assert(txs@.take(idx as int + 1) =~= prefix.push(tx_g));
            lemma_totals_push(prefix, tx_g);
            lemma_totals_bounded(prefix);
        }
        let tx = &txs[idx];
        let abs_amt: i128 = if tx.amount_cents < 0 {
            -(tx.amount_cents as i128)
        } else {
            tx.amount_cents as i128
        };

        if tx.kind == TxKind::Income {
            income = income + tx.amount_cents as i128;
        } else if tx.kind == TxKind::Expense {
            expenses = expenses + abs_amt;
            upsert_category(&mut cats, &tx.category, abs_amt, Ghost(prefix), Ghost(tx_g));
        }
        proof {
            if tx_g.kind != TxKind::Expense {
                assert forall|c: Seq<char>| #[trigger] category_present(
                    prefix.push(tx_g),
                    c,
                ) implies has_share(cats@, c) by {
                    let i = choose|i: int|
                        0 <= i < prefix.push(tx_g).len() && #[trigger] prefix.push(tx_g)[i].kind
                            == TxKind::Expense && prefix.push(tx_g)[i].category@ == c;
                    assert(prefix[i] == prefix.push(tx_g)[i]);
                    assert(category_present(prefix, c));
                }
            }
        }

        let key: String = month_key_of(tx.date.as_str());
        let inc_add: i128 = if tx.kind == TxKind::Income {
            tx.amount_cents as i128
        } else {
            0
        };
        let exp_add: i128 = if tx.kind == TxKind::Expense {
            abs_amt
        } else {
            0
        };
        upsert_month(&mut months, key, inc_add, exp_add, Ghost(prefix), Ghost(tx_g));

        idx = idx + 1;
    }
    proof {
        assert(txs@.take(n as int) =~= txs@);
        lemma_totals_bounded(txs@);
    }
    Aggregates {
        income_cents: income,
        expenses_cents: expenses,
        category_distribution: cats,
        monthly_stats: months,
    }
}

} // verus!
