//! A day-by-day reading schedule: the pages that are left are spread evenly
//! over the days that are left, and the spread is recomputed after every day.
//!
//! [`read_pages`] makes a scheduler for a range of dates and a range of pages.
//! The scheduler hands out one [`ReadingDay`] per calendar day until the pages
//! or the dates run out. What it hands out is stated over the model in
//! [`schedule`].

pub mod date;
pub mod error;
pub mod rounding;
pub mod schedule;

pub use crate::date::Date;
use crate::date::MAX_DAY_NUMBER;
use crate::date::MIN_DAY_NUMBER;
use crate::rounding::rounded_quotient;
use crate::schedule::ReadPagesView;
use crate::schedule::ReadingDayView;
use vstd::prelude::*;

verus! {

/// A quotient of two whole numbers, kept exact.
#[derive(Debug, Clone, Copy, PartialEq, Eq, Structural)]
pub struct Fraction {
    pub numerator: u32,
    pub denominator: u32,
}

/// The reading of one calendar day.
#[derive(Debug, Clone, Copy, PartialEq, Eq, Structural)]
pub struct ReadingDay {
    /// The page at which the day's reading begins.
    pub start_page: u32,
    /// The share of the day before rounding: the pages that were left over the
    /// days that were left, the day itself included.
    pub raw_page_count: Fraction,
    /// The pages to read on the day: the share, rounded to a whole number.
    pub page_count: u32,
    /// The date of the day.
    pub date: Date,
}

impl View for ReadingDay {
    type V = ReadingDayView;

    open spec fn view(&self) -> ReadingDayView {
        ReadingDayView {
            date: self.date@,
            start_page: self.start_page as int,
            pages_remaining: self.raw_page_count.numerator as int,
            days_remaining: self.raw_page_count.denominator as int,
            page_count: self.page_count as int,
        }
    }
}

/// The views of a sequence of reading days.
pub open spec fn views(days: Seq<ReadingDay>) -> Seq<ReadingDayView> {
    days.map_values(|day: ReadingDay| day@)
}

/// A scheduler: it hands out the reading days of one schedule, one by one.
#[derive(Debug, Clone, Copy, PartialEq, Eq)]
pub struct ReadPages {
    start_date: Date,
    start_page: u32,
    end_date: Date,
    end_page: u32,
    current_page: u32,
    /// The next date to hand out; `None` once the last date that can be
    /// represented has been handed out.
    current_date: Option<Date>,
}

impl View for ReadPages {
    type V = ReadPagesView;

    closed spec fn view(&self) -> ReadPagesView {
        ReadPagesView {
            start_day: self.start_date@,
            start_page: self.start_page as int,
            end_day: self.end_date@,
            end_page: self.end_page as int,
            current_day: match self.current_date {
                Some(date) => date@,
                None => MAX_DAY_NUMBER + 1,
            },
            current_page: self.current_page as int,
        }
    }
}

impl ReadPages {
    /// Every scheduler is in a valid state.
    #[verifier::type_invariant]
    pub closed spec fn wf(self) -> bool {
        &&& self@.wf()
        &&& self.start_date.wf()
        &&& self.end_date.wf()
        &&& self.current_date matches Some(date) ==> date.wf()
    }

    /// The state of a scheduler is a valid state of the model.
    pub proof fn lemma_wf(self)
        requires
            self.wf(),
        ensures
            self@.wf(),
    {
    }

    /// Two schedulers in the same state are the same scheduler.
    pub proof fn lemma_view_injective(self, other: ReadPages)
        requires
            self.wf(),
            other.wf(),
            self@ == other@,
        ensures
            self == other,
    {
        self.start_date.lemma_view_injective(other.start_date);
        self.end_date.lemma_view_injective(other.end_date);
        if let Some(date) = self.current_date {
            if let Some(other_date) = other.current_date {
                date.lemma_view_injective(other_date);
            }
        }
    }

    /// Hands out the next reading day and moves on to the day after it, or
    /// returns `None` once the pages or the dates have run out. From then on it
    /// returns `None` at every call.
    pub fn next(&mut self) -> (r: Option<ReadingDay>)
        ensures
            final(self)@.wf(),
            old(self)@.exhausted() ==> r is None && final(self)@ == old(self)@,
            !old(self)@.exhausted() ==> (r matches Some(day) && day@ == old(self)@.item())
                && final(self)@ == old(self)@.step(),
    {
        proof {
            use_type_invariant(&*self);
        }
        let current = match self.current_date {
            Some(date) => date,
            None => {
                return None;
            },
        };
        if self.current_page >= self.end_page {
            return None;
        }
        let gap = self.end_date.signed_days_since(&current);
        if gap < 0 {
            return None;
        }
        let pages: u32 = self.end_page - self.current_page;
        let days: u32 = (gap + 1) as u32;
        let page_count = rounded_quotient(pages, days);
        let result = ReadingDay {
            start_page: self.current_page,
            raw_page_count: Fraction { numerator: pages, denominator: days },
            page_count,
            date: current,
        };
        self.current_page = self.current_page + page_count;
        self.current_date = current.succ_opt();
        Some(result)
    }

    /// Hands out all the reading days that are left and returns how many
    /// there were.
    pub fn count(self) -> (n: usize)
        ensures
            n == self@.items().len(),
            n == self@.item_count(),
    {
        let mut rest = self;
        let mut n: usize = 0;
        proof {
            use_type_invariant(&self);
            self@.lemma_items_len();
        }
        loop
            invariant
                rest@.wf(),
                n + rest@.items().len() == self@.items().len(),
                self@.items().len() == self@.item_count(),
                self@.items().len() <= MAX_DAY_NUMBER - MIN_DAY_NUMBER + 1,
            ensures
                n == self@.items().len(),
            decreases rest@.items().len(),
        {
            proof {
                rest@.lemma_items_len();
            }
            match rest.next() {
                Some(_) => {
                    n = n + 1;
                },
                None => {
                    break ;
                },
            }
        }
        n
    }

    /// Hands out all the reading days that are left and returns them in
    /// order.
    pub fn collect(self) -> (days: Vec<ReadingDay>)
        ensures
            views(days@) == self@.items(),
    {
        let mut rest = self;
        let mut days: Vec<ReadingDay> = Vec::new();
        loop
            invariant
                views(days@) + rest@.items() == self@.items(),
            ensures
                views(days@) == self@.items(),
            decreases rest@.items().len(),
        {
            match rest.next() {
                Some(day) => {
                    days.push(day);
                },
                None => {
                    break ;
                },
            }
        }
        days
    }
}

/// Makes the scheduler of the schedule that begins on `start_date` at
/// `start_page` and ends on `end_date` at `end_page`. Where the first page is
/// not before the last, or the first date is after the last, the scheduler
/// hands out nothing.
pub fn read_pages(start_date: Date, start_page: u32, end_date: Date, end_page: u32) -> (r:
    ReadPages)
    ensures
        r@ == ReadPagesView::new(start_date@, start_page as int, end_date@, end_page as int),
        r@.wf(),
{
    proof {
        use_type_invariant(start_date);
        use_type_invariant(end_date);
    }
    ReadPages {
        start_date,
        start_page,
        end_date,
        end_page,
        current_page: start_page,
        current_date: Some(start_date),
    }
}

/// Making a scheduler twice from the same arguments gives the same scheduler
/// twice. So the two hand out the same reading days, one by one: after any
/// number of calls they are in the same state, and what each has still to hand
/// out is the same sequence.
pub proof fn lemma_read_pages_repeatable(
    first: ReadPages,
    second: ReadPages,
    start_date: Date,
    start_page: u32,
    end_date: Date,
    end_page: u32,
    n: nat,
)
    requires
        first.wf(),
        second.wf(),
        first@ == ReadPagesView::new(start_date@, start_page as int, end_date@, end_page as int),
        second@ == ReadPagesView::new(start_date@, start_page as int, end_date@, end_page as int),
    ensures
        first == second,
        first@.items() == second@.items(),
        first@.after(n) == second@.after(n),
        first@.after(n).item() == second@.after(n).item(),
{
    first.lemma_view_injective(second);
}

/// Two reading days with the same view are the same reading day.
pub proof fn lemma_reading_day_view_injective(first: ReadingDay, second: ReadingDay)
    requires
        first@ == second@,
    ensures
        first == second,
{
    first.date.lemma_view_injective(second.date);
}

} // verus!
