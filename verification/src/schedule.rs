//! The schedule as mathematics: what a scheduler holds, what it hands out
//! next, and the whole sequence of reading days that follows from a state.
//!
//! Everything here is over unbounded integers. Dates are day numbers.

use crate::date::is_day_number;
use crate::date::MAX_DAY_NUMBER;
use crate::rounding::lemma_round_half_up_page_per_day;
use crate::rounding::lemma_round_half_up_scarce;
use crate::rounding::lemma_round_half_up_within;
use crate::rounding::round_half_up;
use vstd::prelude::*;

verus! {

/// One day of reading.
pub struct ReadingDayView {
    /// Day number of the date.
    pub date: int,
    /// The page at which the day's reading begins.
    pub start_page: int,
    /// The pages that were left when the day began.
    pub pages_remaining: int,
    /// The days that were left when the day began, that day included.
    pub days_remaining: int,
    /// The pages assigned to the day: `pages_remaining / days_remaining`,
    /// rounded.
    pub page_count: int,
}

/// The state of a scheduler.
pub struct ReadPagesView {
    /// Day number of the date the schedule was made for.
    pub start_day: int,
    /// The page the schedule was made for.
    pub start_page: int,
    /// Day number of the last date of the schedule.
    pub end_day: int,
    /// The page at which the reading ends.
    pub end_page: int,
    /// Day number of the next date to hand out.
    pub current_day: int,
    /// The first page that has not been handed out.
    pub current_page: int,
}

impl ReadPagesView {
    /// The state of a scheduler that has handed out nothing yet.
    pub open spec fn new(start_day: int, start_page: int, end_day: int, end_page: int) -> Self {
        ReadPagesView {
            start_day,
            start_page,
            end_day,
            end_page,
            current_day: start_day,
            current_page: start_page,
        }
    }

    /// What holds of every state that a scheduler can be in. The two dates it
    /// was made for are dates. The cursor has moved forward from where it
    /// began, by a day for every reading day, and has passed neither the last
    /// page nor the day after the last date, unless it began beyond them.
    pub open spec fn wf(self) -> bool {
        &&& is_day_number(self.start_day)
        &&& is_day_number(self.end_day)
        &&& 0 <= self.start_page <= u32::MAX
        &&& 0 <= self.end_page <= u32::MAX
        &&& self.start_day <= self.current_day <= MAX_DAY_NUMBER + 1
        &&& self.start_page <= self.current_page <= u32::MAX
        &&& self.current_page <= self.end_page || self.current_page == self.start_page
        &&& self.current_day <= self.end_day + 1 || self.current_day == self.start_day
    }

    /// No reading day is left: the pages have run out, or the dates have.
    pub open spec fn exhausted(self) -> bool {
        self.current_page >= self.end_page || self.current_day > self.end_day
    }

    /// The days that are left, the current day included.
    pub open spec fn days_remaining(self) -> int {
        self.end_day - self.current_day + 1
    }

    /// The pages that are left.
    pub open spec fn pages_remaining(self) -> int {
        self.end_page - self.current_page
    }

    /// The pages of the current day: an even share of the pages that are
    /// left, rounded to a whole number.
    pub open spec fn page_count(self) -> int {
        round_half_up(self.pages_remaining(), self.days_remaining())
    }

    /// The reading day that is handed out next.
    pub open spec fn item(self) -> ReadingDayView {
        ReadingDayView {
            date: self.current_day,
            start_page: self.current_page,
            pages_remaining: self.pages_remaining(),
            days_remaining: self.days_remaining(),
            page_count: self.page_count(),
        }
    }

    /// The state after the next reading day has been handed out: one day
    /// later, and past the pages of that day.
    pub open spec fn step(self) -> Self {
        ReadPagesView {
            current_day: self.current_day + 1,
            current_page: self.current_page + self.page_count(),
            ..self
        }
    }

    /// All the reading days that are still to come, in order.
    pub open spec fn items(self) -> Seq<ReadingDayView>
        decreases self.days_remaining(),
    {
        if self.exhausted() {
            Seq::empty()
        } else {
            seq![self.item()] + self.step().items()
        }
    }

    /// The state after `n` reading days have been handed out, where so many
    /// are left.
    pub open spec fn after(self, n: nat) -> Self
        recommends
            n <= self.items().len(),
        decreases n,
    {
        if n == 0 {
            self
        } else {
            self.step().after((n - 1) as nat)
        }
    }

    /// The number of reading days that are still to come: one for every day
    /// that is left where each of them can have a page, and one fewer where
    /// the pages are fewer than the days.
    pub open spec fn item_count(self) -> int {
        if self.exhausted() {
            0
        } else if self.pages_remaining() >= self.days_remaining() {
            self.days_remaining()
        } else {
            self.days_remaining() - 1
        }
    }

    /// A scheduler hands out nothing exactly when it is exhausted. So it
    /// hands out nothing where the first page is not before the last, whatever
    /// the dates are, and nothing where the first date is after the last,
    /// whatever the pages are.
    pub proof fn lemma_empty_iff_exhausted(self)
        ensures
            self.items().len() == 0 <==> self.exhausted(),
            self.current_page >= self.end_page ==> self.items() == Seq::<ReadingDayView>::empty(),
            self.current_day > self.end_day ==> self.items() == Seq::<ReadingDayView>::empty(),
    {
    }

    /// The number of reading days to come is `item_count`.
    pub proof fn lemma_items_len(self)
        ensures
            self.items().len() == self.item_count(),
        decreases self.days_remaining(),
    {
        if !self.exhausted() {
            let pages = self.pages_remaining();
            let days = self.days_remaining();
            lemma_round_half_up_within(pages, days);
            if pages >= days {
                lemma_round_half_up_page_per_day(pages, days);
            } else {
                lemma_round_half_up_scarce(pages, days);
            }
            self.step().lemma_items_len();
        }
    }

    /// Where the pages do not run out early, that is where every day that is
    /// left can have a page, there is one reading day for every calendar day
    /// from the current date to the last, both included. Where the pages are
    /// fewer than the days there are fewer reading days than calendar days.
    pub proof fn lemma_one_item_per_day(self)
        requires
            !self.exhausted(),
        ensures
            self.pages_remaining() >= self.days_remaining() <==> self.items().len()
                == self.end_day - self.current_day + 1,
            self.items().len() <= self.end_day - self.current_day + 1,
    {
        self.lemma_items_len();
    }
}

impl ReadPagesView {
    /// A scheduler that has handed out nothing yet is in a valid state, and
    /// handing out a reading day keeps the state valid.
    pub proof fn lemma_wf(self)
        ensures
            is_day_number(self.start_day) && is_day_number(self.end_day) && 0 <= self.start_page
                <= u32::MAX && 0 <= self.end_page <= u32::MAX ==> Self::new(
                self.start_day,
                self.start_page,
                self.end_day,
                self.end_page,
            ).wf(),
            self.wf() && !self.exhausted() ==> self.step().wf(),
    {
        if self.wf() && !self.exhausted() {
            lemma_round_half_up_within(self.pages_remaining(), self.days_remaining());
        }
    }

    /// Handing out reading days moves the cursor and nothing else, and moves
    /// the date by exactly one day for each.
    pub proof fn lemma_after(self, n: nat)
        ensures
            self.after(n).start_day == self.start_day,
            self.after(n).start_page == self.start_page,
            self.after(n).end_day == self.end_day,
            self.after(n).end_page == self.end_page,
            self.after(n).current_day == self.current_day + n,
        decreases n,
    {
        if n > 0 {
            self.step().lemma_after((n - 1) as nat);
        }
    }

    /// The reading day at position `i` is the one that the state after `i`
    /// reading days hands out, and that state is not exhausted. What follows
    /// it is the rest of the sequence.
    pub proof fn lemma_item_at(self, i: nat)
        requires
            i < self.items().len(),
        ensures
            !self.after(i).exhausted(),
            self.items()[i as int] == self.after(i).item(),
            self.after(i).items() == self.items().skip(i as int),
        decreases i,
    {
        if i > 0 {
            self.step().lemma_item_at((i - 1) as nat);
            assert(self.items().skip(i as int) == self.step().items().skip(i - 1));
        } else {
            assert(self.items().skip(0) == self.items());
        }
    }

    /// The reading days fall on consecutive dates from the current date on,
    /// and each begins at the page where the one before it ended.
    pub proof fn lemma_items_consecutive(self, i: nat)
        requires
            i < self.items().len(),
        ensures
            self.items()[i as int].date == self.current_day + i,
            i == 0 ==> self.items()[i as int].start_page == self.current_page,
            i > 0 ==> self.items()[i as int].start_page == self.items()[i - 1].start_page
                + self.items()[i - 1].page_count,
        decreases i,
    {
        self.lemma_item_at(i);
        self.lemma_after(i);
        if i > 0 {
            self.step().lemma_items_consecutive((i - 1) as nat);
        }
    }

    /// Every reading day gets the share of the state it was handed out from:
    /// the pages that were left over the days that were left, rounded, never
    /// more pages than were left and never fewer than none.
    pub proof fn lemma_items_share(self, i: nat)
        requires
            i < self.items().len(),
        ensures
            self.items()[i as int].days_remaining == self.end_day - self.current_day - i + 1,
            self.items()[i as int].pages_remaining == self.end_page
                - self.items()[i as int].start_page,
            self.items()[i as int].page_count == round_half_up(
                self.items()[i as int].pages_remaining,
                self.items()[i as int].days_remaining,
            ),
            0 <= self.items()[i as int].page_count <= self.items()[i as int].pages_remaining,
    {
        self.lemma_item_at(i);
        self.lemma_after(i);
        let state = self.after(i);
        lemma_round_half_up_within(state.pages_remaining(), state.days_remaining());
    }

    /// The page counts of the reading days to come add up to the pages that
    /// are left: rounding moves pages between days and loses none.
    pub proof fn lemma_total_pages(self)
        ensures
            total_pages(self.items()) == (if self.exhausted() {
                0
            } else {
                self.pages_remaining()
            }),
        decreases self.days_remaining(),
    {
        if !self.exhausted() {
            let next = self.step();
            lemma_round_half_up_within(self.pages_remaining(), self.days_remaining());
            next.lemma_total_pages();
            assert(self.items().skip(1) == next.items());
        }
    }

    /// The page counts of a whole schedule never add up to more than the pages
    /// between its first page and its last. Where the first page is not
    /// before the last they add up to nothing.
    pub proof fn lemma_total_pages_bound(
        start_day: int,
        start_page: int,
        end_day: int,
        end_page: int,
    )
        ensures
            0 <= total_pages(Self::new(start_day, start_page, end_day, end_page).items()),
            start_page <= end_page ==> total_pages(
                Self::new(start_day, start_page, end_day, end_page).items(),
            ) <= end_page - start_page,
            start_page >= end_page ==> total_pages(
                Self::new(start_day, start_page, end_day, end_page).items(),
            ) == 0,
    {
        Self::new(start_day, start_page, end_day, end_page).lemma_total_pages();
    }
}

/// The sum of the page counts of `days`.
pub open spec fn total_pages(days: Seq<ReadingDayView>) -> int
    decreases days.len(),
{
    if days.len() == 0 {
        0
    } else {
        days[0].page_count + total_pages(days.skip(1))
    }
}

} // verus!
