use chrono::Datelike;
use suntrack::dates::{date_key, Date};

fn d(y: i32, m: u32, day: u32) -> Date {
    Date::from_ymd(y, m, day).unwrap()
}

#[test]
fn validity() {
    assert!(Date::from_ymd(2024, 2, 29).is_some());
    assert!(Date::from_ymd(2023, 2, 29).is_none());
    assert!(Date::from_ymd(2000, 2, 29).is_some());
    assert!(Date::from_ymd(1900, 2, 29).is_none());
    assert!(Date::from_ymd(2015, 0, 14).is_none());
    assert!(Date::from_ymd(2015, 4, 31).is_none());
    assert!(Date::from_ymd(-4, 2, 29).is_some());
    assert!(Date::from_ymd(400000, 1, 1).is_none());
    assert!(Date::from_ymd(262142, 12, 31).is_some());
    assert!(Date::from_ymd(-262143, 1, 1).is_some());
    let x = d(2024, 3, 5);
    assert_eq!((x.year(), x.month(), x.day()), (2024, 3, 5));
}

#[test]
fn stepping_days() {
    assert_eq!(d(2024, 2, 28).succ(), Some(d(2024, 2, 29)));
    assert_eq!(d(2024, 2, 29).succ(), Some(d(2024, 3, 1)));
    assert_eq!(d(2023, 12, 31).succ(), Some(d(2024, 1, 1)));
    assert_eq!(d(2024, 3, 1).pred(), Some(d(2024, 2, 29)));
    assert_eq!(d(2024, 1, 1).pred(), Some(d(2023, 12, 31)));
    assert_eq!(d(262142, 12, 31).succ(), None);
    assert_eq!(d(-262143, 1, 1).pred(), None);
}

#[test]
fn stepping_months() {
    assert_eq!(d(2024, 1, 31).add_months(1), Some(d(2024, 2, 29)));
    assert_eq!(d(2024, 12, 1).add_months(1), Some(d(2025, 1, 1)));
    assert_eq!(d(2024, 1, 1).sub_months(1), Some(d(2023, 12, 1)));
    assert_eq!(d(2022, 7, 31).add_months(2), Some(d(2022, 9, 30)));
    assert_eq!(d(2022, 2, 20).sub_months(6), Some(d(2021, 8, 20)));
    assert_eq!(d(2022, 2, 20).add_months(0), Some(d(2022, 2, 20)));
    assert_eq!(d(2014, 1, 1).sub_months(i32::MAX as u32 + 1), None);
    assert_eq!(d(262142, 12, 1).add_months(1), None);
    assert_eq!(d(2024, 5, 17).first_of_month(), d(2024, 5, 1));
}

#[test]
fn weekdays() {
    assert_eq!(d(2024, 1, 1).weekday_from_monday(), 0);
    assert_eq!(d(2024, 3, 3).weekday_from_monday(), 6);
    assert_eq!(d(2000, 2, 29).weekday_from_monday(), 1);
    assert_eq!(d(1970, 1, 1).weekday_from_monday(), 3);
    assert_eq!(d(-1, 12, 31).weekday_from_monday(), chrono_weekday(-1, 12, 31));
    assert_eq!(d(1, 1, 1).weekday_from_monday(), 0);
}

fn chrono_weekday(y: i32, m: u32, day: u32) -> u32 {
    chrono::NaiveDate::from_ymd_opt(y, m, day).unwrap().weekday().num_days_from_monday()
}

#[test]
fn keys() {
    assert_eq!(date_key(&d(2024, 3, 5)), "2024-03-05");
    assert_eq!(date_key(&d(987, 12, 25)), "0987-12-25");
    assert_eq!(date_key(&d(-5, 1, 2)), "-0005-01-02");
    assert_eq!(date_key(&d(12345, 6, 7)), "+12345-06-07");
    assert_eq!(d(2024, 3, 5).month_key(), "2024-03");
    assert!(date_key(&d(2024, 3, 5)).starts_with(&d(2024, 3, 5).month_key()));
}

#[test]
fn ordering() {
    assert!(d(2024, 3, 5).is_before(&d(2024, 3, 6)));
    assert!(d(2023, 12, 31).is_before(&d(2024, 1, 1)));
    assert!(!d(2024, 3, 5).is_before(&d(2024, 3, 5)));
    assert!(d(2024, 3, 5).same_day(&d(2024, 3, 5)));
}

fn zeller_from_monday(y: i64, m: i64, day: i64) -> i64 {
    let (yy, mm) = if m <= 2 { (y - 1, m + 12) } else { (y, m) };
    let h = (day + (13 * (mm + 1)).div_euclid(5) + yy + yy.div_euclid(4) - yy.div_euclid(100)
        + yy.div_euclid(400))
    .rem_euclid(7);
    (h + 5).rem_euclid(7)
}

fn key_text(y: i32, m: u32, day: u32) -> String {
    let year = if (0..=9999).contains(&y) {
        format!("{y:04}")
    } else if y < 0 {
        format!("-{:04}", -(y as i64))
    } else {
        format!("+{y:04}")
    };
    format!("{year}-{m:02}-{day:02}")
}

#[test]
fn weekdays_and_keys_across_the_range() {
    let years = [-262143, -100000, -401, -400, -101, -100, -5, -1, 0, 1, 99, 100, 999, 1000, 1582,
                 1899, 1900, 1970, 1999, 2000, 2023, 2024, 9999, 10000, 12345, 99999, 262142];
    for &y in &years {
        for m in 1..=12u32 {
            for day in [1u32, 15, 28, 29, 30, 31] {
                if let Some(date) = Date::from_ymd(y, m, day) {
                    assert_eq!(
                        date.weekday_from_monday() as i64,
                        zeller_from_monday(y as i64, m as i64, day as i64),
                        "{y}-{m}-{day}"
                    );
                    assert_eq!(date_key(&date), key_text(y, m, day));
                    assert_eq!(date_key(&date).len() as i64 > 0, true);
                }
            }
        }
    }
}

fn shift_months(y: i32, m: u32, day: u32, delta: i64) -> Option<(i32, u32, u32)> {
    let total = y as i64 * 12 + (m as i64 - 1) + delta;
    if total < i32::MIN as i64 || total > i32::MAX as i64 {
        return None;
    }
    let ny = total.div_euclid(12);
    let nm = (total.rem_euclid(12) + 1) as u32;
    let leap = ny % 4 == 0 && (ny % 100 != 0 || ny % 400 == 0);
    let dim = match nm {
        2 => if leap { 29 } else { 28 },
        4 | 6 | 9 | 11 => 30,
        _ => 31,
    };
    let nd = day.min(dim);
    if ny < -262143 || ny > 262142 {
        return None;
    }
    Some((ny as i32, nm, nd))
}

#[test]
fn month_shifts_match_the_stated_rule() {
    let starts = [(2024, 1, 31), (2023, 3, 31), (2000, 2, 29), (-5, 12, 31), (262142, 11, 30), (-262143, 1, 1)];
    for &(y, m, day) in &starts {
        let date = d(y, m, day);
        for n in [0u32, 1, 2, 11, 12, 13, 25, 1000, 3_000_000, 2_147_483_647, 2_147_483_648, u32::MAX] {
            let add = date.add_months(n).map(|x| (x.year(), x.month(), x.day()));
            let sub = date.sub_months(n).map(|x| (x.year(), x.month(), x.day()));
            let (want_add, want_sub) = if n == 0 {
                (Some((y, m, day)), Some((y, m, day)))
            } else if n > i32::MAX as u32 {
                (None, None)
            } else {
                (shift_months(y, m, day, n as i64), shift_months(y, m, day, -(n as i64)))
            };
            assert_eq!(add, want_add, "{y}-{m}-{day} + {n}");
            assert_eq!(sub, want_sub, "{y}-{m}-{day} - {n}");
        }
    }
}
