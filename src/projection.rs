use vstd::prelude::*;
use crate::status::{Status, status_for};

verus! {

/// Amounts are fixed-point numbers counted in billionths of the target
/// currency: a salary in whole units times a rate in millionths, times a
/// thousand, so that both discounts come out exact.
pub const NANOS_PER_UNIT: i128 = 1_000_000_000;

/// The figures derived from one salary and two exchange rates.
#[derive(Clone, Copy, Debug, PartialEq, Eq, Structural)]
pub struct SalaryProjection {
    /// The salary converted at the current rate.
    pub current_salary: i128,
    /// The salary converted at the rate of the last payment.
    pub previous_salary: i128,
    /// The current salary less 1%.
    pub discount1: i128,
    /// The current salary less 0.5%.
    pub discount0_5: i128,
    /// How much the current salary exceeds the previous one.
    pub salary_diff: i128,
    /// How much the 1% scenario exceeds the 0.5% scenario (never positive).
    pub discount_diff: i128,
}

/// `p` holds the figures for `salary` whole units at the rates `current_bid`
/// and `last_bid`, both in millionths.
pub open spec fn projects(p: SalaryProjection, salary: int, current_bid: int, last_bid: int) -> bool {
    &&& p.current_salary == salary * current_bid * 1000
    &&& p.previous_salary == salary * last_bid * 1000
    &&& p.discount1 * 100 == p.current_salary * 99
    &&& p.discount0_5 * 1000 == p.current_salary * 995
    &&& p.salary_diff == p.current_salary - p.previous_salary
    &&& p.discount_diff == p.discount1 - p.discount0_5
}

proof fn lemma_product_bound(salary: u16, bid: u64)
    ensures
        0 <= salary * bid <= 65535 * 18446744073709551615,
{
    assert(0 <= salary * bid <= 65535 * 18446744073709551615) by (nonlinear_arith)
        requires
            salary <= 65535,
            bid <= 18446744073709551615,
    ;
}

/// Converts `salary` at the current and the previous rate (millionths per
/// unit) and derives the two discount scenarios and the differences.
pub fn project(salary: u16, current_bid: u64, last_bid: u64) -> (r: SalaryProjection)
    ensures
        projects(r, salary as int, current_bid as int, last_bid as int),
{
    proof {
        lemma_product_bound(salary, current_bid);
        lemma_product_bound(salary, last_bid);
    }
    let current = salary as i128 * current_bid as i128;
    let last = salary as i128 * last_bid as i128;
    let current_salary = current * 1000;
    let previous_salary = last * 1000;
    let discount1 = current * 990;
    let discount0_5 = current * 995;
    SalaryProjection {
        current_salary,
        previous_salary,
        discount1,
        discount0_5,
        salary_diff: current_salary - previous_salary,
        discount_diff: discount1 - discount0_5,
    }
}

/// The 1% scenario never exceeds the 0.5% scenario while the salary is not
/// negative.
pub proof fn lemma_discounts_ordered(p: SalaryProjection, salary: u16, current_bid: u64, last_bid: u64)
    requires
        projects(p, salary as int, current_bid as int, last_bid as int),
    ensures
        p.current_salary >= 0,
        p.discount1 <= p.discount0_5,
        p.discount_diff <= 0,
{
    lemma_product_bound(salary, current_bid);
}

/// The status is affirmative exactly when the salary at the current rate
/// exceeds the salary at the last rate, that is when the current rate is the
/// higher one and the salary is not zero.
pub proof fn lemma_status_follows_rates(p: SalaryProjection, salary: u16, current_bid: u64, last_bid: u64)
    requires
        projects(p, salary as int, current_bid as int, last_bid as int),
    ensures
        (status_for(p.salary_diff as int) == Status::Affirmative) <==> p.current_salary
            > p.previous_salary,
        (status_for(p.salary_diff as int) == Status::Affirmative) <==> (salary > 0 && current_bid
            > last_bid),
{
    let s = salary as int;
    let c = current_bid as int;
    let l = last_bid as int;
    assert(s * c * 1000 - s * l * 1000 == s * (c - l) * 1000) by (nonlinear_arith);
    assert(s * (c - l) > 0 <==> (s > 0 && c > l)) by (nonlinear_arith)
        requires
            s >= 0,
    ;
}

} // verus!
