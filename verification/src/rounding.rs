//! Division of a page count by a day count, rounded to the nearest whole
//! number of pages.

use vstd::arithmetic::div_mod::lemma_fundamental_div_mod;
use vstd::arithmetic::div_mod::lemma_mod_bound;
use vstd::prelude::*;

verus! {

/// The quotient `pages / days` rounded to the nearest integer, a half rounded
/// up: the floor of `pages / days + 1/2`. Of a quotient that is not negative,
/// as every share of pages is, this is rounding half away from zero.
pub open spec fn round_half_up(pages: int, days: int) -> int
    recommends
        days > 0,
{
    (2 * pages + days) / (2 * days)
}

/// The rounded quotient reaches `k` exactly when `pages / days + 1/2` does.
pub proof fn lemma_round_half_up_reaches(pages: int, days: int, k: int)
    requires
        days > 0,
    ensures
        round_half_up(pages, days) >= k <==> 2 * pages + days >= 2 * days * k,
{
    let x = 2 * pages + days;
    let d = 2 * days;
    let q = x / d;
    lemma_fundamental_div_mod(x, d);
    lemma_mod_bound(x, d);
    assert(2 * days * k == d * k) by (nonlinear_arith)
        requires
            d == 2 * days,
    ;
    if q >= k {
        assert(d * q >= d * k) by (nonlinear_arith)
            requires
                d > 0,
                q >= k,
        ;
    } else {
        assert(d * q + d <= d * k) by (nonlinear_arith)
            requires
                d > 0,
                q + 1 <= k,
        ;
    }
}

/// The rounded quotient is the integer nearest to `pages / days`: it differs
/// from the exact quotient by at most a half, and where two integers are
/// equally near it is the larger.
pub proof fn lemma_round_half_up_nearest(pages: int, days: int)
    requires
        days > 0,
    ensures
        2 * days * round_half_up(pages, days) - days <= 2 * pages,
        2 * pages < 2 * days * round_half_up(pages, days) + days,
{
    let r = round_half_up(pages, days);
    lemma_round_half_up_reaches(pages, days, r);
    lemma_round_half_up_reaches(pages, days, r + 1);
    assert(2 * days * (r + 1) == 2 * days * r + 2 * days) by (nonlinear_arith);
}

/// No other integer is nearest in that sense.
pub proof fn lemma_round_half_up_unique(pages: int, days: int, r: int)
    requires
        days > 0,
        2 * days * r - days <= 2 * pages,
        2 * pages < 2 * days * r + days,
    ensures
        r == round_half_up(pages, days),
{
    lemma_round_half_up_reaches(pages, days, r);
    lemma_round_half_up_reaches(pages, days, r + 1);
    assert(2 * days * (r + 1) == 2 * days * r + 2 * days) by (nonlinear_arith);
}

/// Rounding never hands out more pages than there are, nor fewer than none.
pub proof fn lemma_round_half_up_within(pages: int, days: int)
    requires
        days > 0,
        pages >= 0,
    ensures
        0 <= round_half_up(pages, days) <= pages,
        days == 1 ==> round_half_up(pages, days) == pages,
{
    lemma_round_half_up_reaches(pages, days, 0);
    lemma_round_half_up_reaches(pages, days, pages + 1);
    lemma_round_half_up_reaches(pages, days, pages);
    assert(2 * days * 0 == 0) by (nonlinear_arith);
    assert(2 * days * (pages + 1) > 2 * pages + days) by (nonlinear_arith)
        requires
            days > 0,
            pages >= 0,
    ;
    if days == 1 {
        assert(2 * days * pages == 2 * pages) by (nonlinear_arith)
            requires
                days == 1,
        ;
    }
}

/// Where every day that is left can have a page, the rounded share of one day
/// is at least a page, and what it leaves is still a page for every other day.
pub proof fn lemma_round_half_up_page_per_day(pages: int, days: int)
    requires
        days > 0,
        pages >= days,
    ensures
        round_half_up(pages, days) >= 1,
        pages - round_half_up(pages, days) >= days - 1,
{
    lemma_round_half_up_reaches(pages, days, 1);
    lemma_round_half_up_reaches(pages, days, pages - days + 2);
    assert(2 * days * (pages - days + 2) > 2 * pages + days) by (nonlinear_arith)
        requires
            days > 0,
            pages >= days,
    ;
}

/// Where the pages are fewer than the days, the rounded share of one day is
/// no page or one page. It is one page from half a page on.
pub proof fn lemma_round_half_up_scarce(pages: int, days: int)
    requires
        0 <= pages < days,
    ensures
        round_half_up(pages, days) == (if 2 * pages >= days {
            1int
        } else {
            0int
        }),
{
    lemma_round_half_up_reaches(pages, days, 0);
    lemma_round_half_up_reaches(pages, days, 1);
    lemma_round_half_up_reaches(pages, days, 2);
}

/// Divides `pages` by `days` and rounds to the nearest whole number, a half
/// rounded up.
pub fn rounded_quotient(pages: u32, days: u32) -> (r: u32)
    requires
        days > 0,
    ensures
        r == round_half_up(pages as int, days as int),
        2 * days * r - days <= 2 * pages < 2 * days * r + days,
        r <= pages,
{
    proof {
        lemma_round_half_up_within(pages as int, days as int);
        lemma_round_half_up_nearest(pages as int, days as int);
    }
    let doubled: u64 = 2 * (pages as u64) + (days as u64);
    let divisor: u64 = 2 * (days as u64);
    (doubled / divisor) as u32
}

} // verus!
