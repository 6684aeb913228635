use reading_plan::read_pages;
use reading_plan::Date;
use reading_plan::Fraction;
use reading_plan::ReadingDay;

fn raw(day: &ReadingDay) -> f32 {
    day.raw_page_count.numerator as f32 / day.raw_page_count.denominator as f32
}

#[test]
fn when_starts_past_page_count_then_returns_empty_iter() {
    let page_count = 10;
    let start_page = 11;
    let start_date = Date::from_ymd_opt(2020, 1, 1).unwrap();
    let end_date = Date::from_ymd_opt(2020, 1, 2).unwrap();

    let result = read_pages(start_date, start_page, end_date, page_count);

    assert_eq!(result.count(), 0);
}

#[test]
fn when_start_date_is_after_end_date_then_returns_empty_iter() {
    let page_count = 10;
    let start_page = 5;
    let start_date = Date::from_ymd_opt(2020, 1, 2).unwrap();
    let end_date = Date::from_ymd_opt(2020, 1, 1).unwrap();

    let result = read_pages(start_date, start_page, end_date, page_count);

    assert_eq!(result.count(), 0);
}

#[test]
fn when_one_day_then_returns_one_page() {
    let page_count = 10;
    let start_page = 5;
    let start_date = Date::from_ymd_opt(2020, 1, 1).unwrap();
    let end_date = Date::from_ymd_opt(2020, 1, 1).unwrap();

    let mut result = read_pages(start_date, start_page, end_date, page_count);
    let result = result.next();

    assert_eq!(
        result,
        Some(ReadingDay {
            start_page: 5,
            raw_page_count: Fraction { numerator: 5, denominator: 1 },
            page_count: 5,
            date: start_date,
        })
    );
    assert_eq!(raw(&result.unwrap()), 5.0);
}

#[test]
fn when_two_days_then_splits_the_reading_over_days() {
    let page_count = 10;
    let start_page = 4;
    let start_date = Date::from_ymd_opt(2020, 1, 1).unwrap();
    let end_date = Date::from_ymd_opt(2020, 1, 2).unwrap();

    let mut result = read_pages(start_date, start_page, end_date, page_count);
    let first = result.next();
    let second = result.next();

    assert_eq!(
        first,
        Some(ReadingDay {
            start_page: 4,
            raw_page_count: Fraction { numerator: 6, denominator: 2 },
            page_count: 3,
            date: start_date,
        })
    );
    assert_eq!(raw(&first.unwrap()), 3.0);
    assert_eq!(
        second,
        Some(ReadingDay {
            start_page: 7,
            raw_page_count: Fraction { numerator: 3, denominator: 1 },
            page_count: 3,
            date: start_date.succ_opt().unwrap(),
        })
    );
    assert_eq!(raw(&second.unwrap()), 3.0);
}

#[test]
fn when_two_days_with_odd_pages_then_unequally_spreads_reading_over_days() {
    let page_count = 11;
    let start_page = 4;
    let start_date = Date::from_ymd_opt(2020, 1, 1).unwrap();
    let end_date = Date::from_ymd_opt(2020, 1, 2).unwrap();

    let mut result = read_pages(start_date, start_page, end_date, page_count);
    let first = result.next();
    let second = result.next();

    assert_eq!(
        first,
        Some(ReadingDay {
            start_page: 4,
            raw_page_count: Fraction { numerator: 7, denominator: 2 },
            page_count: 4,
            date: start_date,
        })
    );
    assert_eq!(raw(&first.unwrap()), 3.5);
    assert_eq!(
        second,
        Some(ReadingDay {
            start_page: 8,
            raw_page_count: Fraction { numerator: 3, denominator: 1 },
            page_count: 3,
            date: start_date.succ_opt().unwrap(),
        })
    );
    assert_eq!(raw(&second.unwrap()), 3.0);
}

#[test]
fn plan_for_one_day_from_parsed_dates() {
    let start_date = Date::parse("2020-01-01").unwrap();
    let end_date = Date::parse("2020-01-01").unwrap();

    let days = read_pages(start_date, 4, end_date, 10).collect();

    assert_eq!(
        days,
        vec![ReadingDay {
            start_page: 4,
            raw_page_count: Fraction { numerator: 6, denominator: 1 },
            page_count: 6,
            date: Date::from_ymd_opt(2020, 1, 1).unwrap(),
        }]
    );
    assert_eq!(raw(&days[0]), 6.0);
    let date = chrono::NaiveDate::from_num_days_from_ce_opt(days[0].date.num_days_from_ce());
    assert_eq!(date.unwrap().to_string(), "2020-01-01");
}

#[test]
fn exhausted_scheduler_keeps_returning_none() {
    let day = Date::from_ymd_opt(2020, 1, 1).unwrap();
    let mut pages = read_pages(day, 5, day, 10);

    assert!(pages.next().is_some());
    assert_eq!(pages.next(), None);
    assert_eq!(pages.next(), None);
    assert_eq!(pages.next(), None);
}

#[test]
fn start_page_equal_to_end_page_gives_nothing() {
    let start = Date::from_ymd_opt(2020, 1, 1).unwrap();
    let end = Date::from_ymd_opt(2020, 1, 31).unwrap();

    assert_eq!(read_pages(start, 10, end, 10).count(), 0);
    assert_eq!(read_pages(start, 10, end, 10).collect(), vec![]);
}

#[test]
fn one_reading_day_per_calendar_day_when_pages_suffice() {
    let start = Date::from_ymd_opt(2020, 1, 1).unwrap();
    let end = Date::from_ymd_opt(2020, 1, 31).unwrap();

    assert_eq!(read_pages(start, 0, end, 31).count(), 31);
    assert_eq!(read_pages(start, 0, end, 300).count(), 31);
    assert_eq!(read_pages(start, 7, end, 4000).collect().len(), 31);
}

#[test]
fn one_reading_day_fewer_when_pages_are_fewer_than_days() {
    let start = Date::from_ymd_opt(2020, 1, 1).unwrap();
    let end = Date::from_ymd_opt(2020, 1, 31).unwrap();

    assert_eq!(read_pages(start, 0, end, 30).count(), 30);
    assert_eq!(read_pages(start, 0, end, 1).count(), 30);
    assert_eq!(read_pages(start, 0, end, 17).collect().len(), 30);
}

#[test]
fn one_page_over_three_days_is_read_on_the_second_day() {
    let start = Date::from_ymd_opt(2020, 1, 1).unwrap();
    let second = Date::from_ymd_opt(2020, 1, 2).unwrap();
    let end = Date::from_ymd_opt(2020, 1, 3).unwrap();

    let days = read_pages(start, 0, end, 1).collect();

    assert_eq!(
        days,
        vec![
            ReadingDay {
                start_page: 0,
                raw_page_count: Fraction { numerator: 1, denominator: 3 },
                page_count: 0,
                date: start,
            },
            ReadingDay {
                start_page: 0,
                raw_page_count: Fraction { numerator: 1, denominator: 2 },
                page_count: 1,
                date: second,
            },
        ]
    );
}

#[test]
fn collect_returns_what_next_hands_out() {
    let start = Date::from_ymd_opt(2023, 12, 25).unwrap();
    let end = Date::from_ymd_opt(2024, 1, 5).unwrap();
    let mut one_by_one = read_pages(start, 3, end, 250);

    let all = read_pages(start, 3, end, 250).collect();

    assert_eq!(all.len(), 12);
    for day in all {
        assert_eq!(one_by_one.next(), Some(day));
    }
    assert_eq!(one_by_one.next(), None);
}

#[test]
fn reading_days_are_consecutive() {
    let start = Date::from_ymd_opt(2024, 2, 27).unwrap();
    let end = Date::from_ymd_opt(2024, 3, 2).unwrap();

    let days = read_pages(start, 10, end, 111).collect();

    assert_eq!(days.len(), 5);
    assert_eq!(days[0].date, start);
    assert_eq!(days[0].start_page, 10);
    assert_eq!(days[2].date, Date::from_ymd_opt(2024, 2, 29).unwrap());
    assert_eq!(days[4].date, end);
    for i in 1..days.len() {
        assert_eq!(Some(days[i].date), days[i - 1].date.succ_opt());
        assert_eq!(days[i].start_page, days[i - 1].start_page + days[i - 1].page_count);
        assert_eq!(days[i].raw_page_count.numerator, 111 - days[i].start_page);
        assert_eq!(days[i].raw_page_count.denominator, 5 - i as u32);
    }
}

#[test]
fn page_counts_add_up_to_the_pages_of_the_schedule() {
    let start = Date::from_ymd_opt(2020, 1, 1).unwrap();
    let end = Date::from_ymd_opt(2020, 3, 15).unwrap();

    for end_page in [1u32, 2, 37, 74, 75, 76, 1000, 123_456] {
        let days = read_pages(start, 0, end, end_page).collect();
        let total: u32 = days.iter().map(|day| day.page_count).sum();
        assert_eq!(total, end_page);
    }
    let days = read_pages(start, 40, end, 1000).collect();
    let total: u32 = days.iter().map(|day| day.page_count).sum();
    assert_eq!(total, 960);
}

#[test]
fn every_page_count_is_the_rounded_share() {
    let start = Date::from_ymd_opt(2020, 1, 1).unwrap();
    let end = Date::from_ymd_opt(2020, 1, 10).unwrap();

    let days = read_pages(start, 0, end, 97).collect();

    let counts: Vec<u32> = days.iter().map(|day| day.page_count).collect();
    assert_eq!(counts, vec![10, 10, 10, 10, 10, 9, 10, 9, 10, 9]);
    for day in &days {
        assert_eq!(day.page_count, raw(day).round() as u32);
    }
}

#[test]
fn same_arguments_give_the_same_reading_days() {
    let start = Date::from_ymd_opt(2021, 6, 1).unwrap();
    let end = Date::from_ymd_opt(2021, 6, 30).unwrap();
    let mut first = read_pages(start, 12, end, 345);
    let mut second = read_pages(start, 12, end, 345);

    loop {
        let a = first.next();
        let b = second.next();
        assert_eq!(a, b);
        if a.is_none() {
            break;
        }
    }
    assert_eq!(read_pages(start, 12, end, 345).collect(), read_pages(start, 12, end, 345).collect());
}

#[test]
fn taking_from_one_scheduler_leaves_the_other_alone() {
    let start = Date::from_ymd_opt(2021, 6, 1).unwrap();
    let end = Date::from_ymd_opt(2021, 6, 3).unwrap();
    let mut first = read_pages(start, 0, end, 9);
    let second = read_pages(start, 0, end, 9);

    assert!(first.next().is_some());
    assert!(first.next().is_some());

    assert_eq!(first.count(), 1);
    assert_eq!(second.count(), 3);
}

#[test]
fn schedule_that_ends_on_the_last_date_stops_after_it() {
    let last = Date::from_ymd_opt(262142, 12, 31).unwrap();
    let eve = Date::from_ymd_opt(262142, 12, 30).unwrap();
    let mut pages = read_pages(eve, 0, last, 10);

    assert_eq!(pages.next().map(|day| (day.date, day.page_count)), Some((eve, 5)));
    assert_eq!(pages.next().map(|day| (day.date, day.page_count)), Some((last, 5)));
    assert_eq!(pages.next(), None);
    assert_eq!(pages.next(), None);
    assert_eq!(read_pages(last, 0, last, 10).count(), 1);
}

#[test]
fn share_is_rounded_exactly_for_large_page_numbers() {
    let start = Date::from_ymd_opt(2020, 1, 1).unwrap();
    let end = Date::from_ymd_opt(2020, 1, 3).unwrap();
    let mut pages = read_pages(start, 0, end, 4_000_000_001);

    let first = pages.next().unwrap();
    let second = pages.next().unwrap();
    let third = pages.next().unwrap();

    assert_eq!(first.page_count, 1_333_333_334);
    assert_eq!(second.start_page, 1_333_333_334);
    assert_eq!(second.page_count, 1_333_333_334);
    assert_eq!(third.page_count, 1_333_333_333);
    assert_eq!(pages.next(), None);
}
