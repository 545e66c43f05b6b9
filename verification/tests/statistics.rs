use nomi_log::calendar::days_in_month;
use nomi_log::calendar::leap_year;
use nomi_log::calendar::month_range;
use nomi_log::commands::create_beverage;
use nomi_log::commands::create_post;
use nomi_log::commands::get_monthly_alcohol_intake;
use nomi_log::db::Database;
use nomi_log::intake::count_drinking_days;
use nomi_log::intake::monthly_summary;
use nomi_log::intake::serving_alcohol;
use nomi_log::intake::servings_alcohol;
use nomi_log::intake::total_intake;
use nomi_log::intake::IntakeEntry;
use nomi_log::intake::Serving;
use nomi_log::models::BeverageAmountInput;
use nomi_log::models::CreateBeverageRequest;
use nomi_log::models::CreatePostRequest;
use nomi_log::models::MonthlyAlcoholIntake;
use std::path::PathBuf;

fn open_statistics() -> Database {
    Database::new(PathBuf::from(":memory:")).expect("an in-memory database opens")
}

fn new_beverage(db: &mut Database, name: &str, alcohol_content: Option<u32>) -> i64 {
    create_beverage(
        db,
        CreateBeverageRequest { name: name.to_string(), alcohol_content, category_id: 1 },
    )
    .unwrap()
}

fn new_post(db: &mut Database, date: &str, drinks: &[(i64, u64)]) -> i64 {
    create_post(
        db,
        CreatePostRequest {
            date: date.to_string(),
            comment: None,
            beverages: drinks
                .iter()
                .map(|(beverage_id, amount)| BeverageAmountInput {
                    beverage_id: *beverage_id,
                    amount: *amount,
                })
                .collect(),
        },
    )
    .unwrap()
}

fn entry(date: &str, servings: &[(u64, Option<u32>)]) -> IntakeEntry {
    IntakeEntry {
        date: date.to_string(),
        servings: servings
            .iter()
            .map(|(amount, alcohol_content)| Serving {
                amount: *amount,
                alcohol_content: *alcohol_content,
            })
            .collect(),
    }
}

#[test]
fn february_has_29_days_in_a_leap_year() {
    assert_eq!(days_in_month(2024, 2), 29);
    assert_eq!(days_in_month(2023, 2), 28);
    assert_eq!(days_in_month(2000, 2), 29);
    assert_eq!(days_in_month(1900, 2), 28);
    assert_eq!(days_in_month(2100, 2), 28);
    assert_eq!(days_in_month(0, 2), 29);
    assert_eq!(days_in_month(-4, 2), 29);
    assert_eq!(days_in_month(-100, 2), 28);
}

#[test]
fn months_have_their_lengths() {
    let lengths: Vec<u8> = (1..=12).map(|month| days_in_month(2023, month)).collect();
    assert_eq!(lengths, vec![31, 28, 31, 30, 31, 30, 31, 31, 30, 31, 30, 31]);
}

#[test]
fn month_out_of_range_has_30_days() {
    assert_eq!(days_in_month(2024, 0), 30);
    assert_eq!(days_in_month(2024, 13), 30);
    assert_eq!(days_in_month(2024, -2), 30);
    assert_eq!(days_in_month(2024, i64::MAX), 30);
}

#[test]
fn leap_years_follow_the_rule() {
    assert!(leap_year(2024));
    assert!(!leap_year(2023));
    assert!(leap_year(2000));
    assert!(!leap_year(1900));
    assert!(leap_year(i64::MIN));
    assert!(!leap_year(i64::MAX));
}

#[test]
fn month_range_is_half_open() {
    assert_eq!(month_range(2024, 1), ("2024-01-01".to_string(), "2024-02-01".to_string()));
    assert_eq!(month_range(2024, 9), ("2024-09-01".to_string(), "2024-10-01".to_string()));
    assert_eq!(month_range(2024, 11), ("2024-11-01".to_string(), "2024-12-01".to_string()));
}

#[test]
fn month_range_of_december_ends_in_the_next_year() {
    assert_eq!(month_range(2023, 12), ("2023-12-01".to_string(), "2024-01-01".to_string()));
    assert_eq!(month_range(999, 12), ("0999-12-01".to_string(), "1000-01-01".to_string()));
}

#[test]
fn month_range_is_written_as_the_standard_formatter_writes_it() {
    for (year, month) in [
        (2024i64, 2i64),
        (5, 7),
        (0, 0),
        (-5, 3),
        (-12345, -1),
        (123456, 100),
        (i64::MIN, i64::MIN),
        (i64::MAX - 1, i64::MAX - 1),
    ] {
        let start = format!("{:04}-{:02}-01", year, month);
        let end = if month == 12 {
            format!("{:04}-01-01", year + 1)
        } else {
            format!("{:04}-{:02}-01", year, month + 1)
        };
        assert_eq!(month_range(year, month), (start, end));
    }
}

#[test]
fn month_range_holds_at_the_largest_year() {
    assert_eq!(
        month_range(i64::MAX, 12),
        ("9223372036854775807-12-01".to_string(), "9223372036854775808-01-01".to_string())
    );
    assert_eq!(
        month_range(1, i64::MAX),
        ("0001-9223372036854775807-01".to_string(), "0001-9223372036854775808-01".to_string())
    );
}

#[test]
fn serving_holds_volume_times_content_times_eight() {
    assert_eq!(serving_alcohol(&Serving { amount: 500_000, alcohol_content: Some(5_000) }), 20_000_000_000);
    assert_eq!(serving_alcohol(&Serving { amount: 1, alcohol_content: Some(1) }), 8);
    assert_eq!(serving_alcohol(&Serving { amount: 200_000, alcohol_content: None }), 0);
    assert_eq!(serving_alcohol(&Serving { amount: 200_000, alcohol_content: Some(0) }), 0);
    assert_eq!(serving_alcohol(&Serving { amount: 0, alcohol_content: Some(5_000) }), 0);
    assert_eq!(
        serving_alcohol(&Serving { amount: u64::MAX, alcohol_content: Some(u32::MAX) }),
        u64::MAX as u128 * u32::MAX as u128 * 8
    );
}

#[test]
fn one_post_with_a_beer_and_a_tea() {
    let entries = vec![entry("2024-01-05", &[(500_000, Some(5_000)), (200_000, None)])];
    let summary = monthly_summary(&entries, 2024, 1).unwrap();
    assert_eq!(
        summary,
        MonthlyAlcoholIntake {
            total_intake: 20_000_000_000,
            average_per_day: 645_161_290,
            drinking_days: 1
        }
    );
    assert_eq!(summary.average_per_day, 20_000_000_000 / 31);
}

#[test]
fn two_posts_on_one_date_are_one_drinking_day() {
    let entries = vec![
        entry("2024-01-05", &[(350_000, Some(5_000))]),
        entry("2024-01-05", &[(150_000, Some(13_500))]),
    ];
    let summary = monthly_summary(&entries, 2024, 1).unwrap();
    assert_eq!(summary.drinking_days, 1);
    assert_eq!(summary.total_intake, 350_000 * 5_000 * 8 + 150_000 * 13_500 * 8);
    assert_eq!(count_drinking_days(&entries), 1);
}

#[test]
fn drinking_days_are_distinct_dates() {
    let entries = vec![
        entry("2024-01-05", &[]),
        entry("2024-01-06", &[]),
        entry("2024-01-05", &[]),
        entry("2024-01-07", &[]),
        entry("2024-01-06", &[]),
    ];
    assert_eq!(count_drinking_days(&entries), 3);
    assert_eq!(count_drinking_days(&Vec::new()), 0);
}

#[test]
fn no_posts_give_zeros() {
    let summary = monthly_summary(&Vec::new(), 2024, 2).unwrap();
    assert_eq!(
        summary,
        MonthlyAlcoholIntake { total_intake: 0, average_per_day: 0, drinking_days: 0 }
    );
}

#[test]
fn average_divides_by_the_whole_month() {
    let entries = vec![entry("2024-02-10", &[(1_000_000, Some(29_000))])];
    let leap = monthly_summary(&entries, 2024, 2).unwrap();
    let plain = monthly_summary(&entries, 2023, 2).unwrap();
    let fallback = monthly_summary(&entries, 2024, 13).unwrap();
    assert_eq!(leap.total_intake, 232_000_000_000);
    assert_eq!(leap.average_per_day, 8_000_000_000);
    assert_eq!(plain.average_per_day, 232_000_000_000 / 28);
    assert_eq!(fallback.average_per_day, 232_000_000_000 / 30);
}

#[test]
fn large_totals_are_exact() {
    let most = Serving { amount: u64::MAX, alcohol_content: Some(u32::MAX) };
    let servings = vec![most; 1 << 10];
    let entries: Vec<IntakeEntry> = (0..(1usize << 6))
        .map(|_| IntakeEntry { date: "2024-01-05".to_string(), servings: servings.clone() })
        .collect();
    let one = u64::MAX as u128 * u32::MAX as u128 * 8;
    assert_eq!(servings_alcohol(&servings), Some(one << 10));
    assert_eq!(total_intake(&entries), Some(one << 16));
    let summary = monthly_summary(&entries, 2024, 4).unwrap();
    assert_eq!(summary.total_intake, one << 16);
    assert_eq!(summary.average_per_day, (one << 16) / 30);
    assert_eq!(summary.drinking_days, 1);
}

#[test]
fn monthly_intake_of_one_post() {
    let mut db = open_statistics();
    let a = new_beverage(&mut db, "A", Some(5_000));
    let b = new_beverage(&mut db, "B", None);
    new_post(&mut db, "2024-01-05", &[(a, 500_000), (b, 200_000)]);
    let summary = get_monthly_alcohol_intake(&mut db, 2024, 1).unwrap();
    assert_eq!(
        summary,
        MonthlyAlcoholIntake {
            total_intake: 20_000_000_000,
            average_per_day: 20_000_000_000 / 31,
            drinking_days: 1
        }
    );
}

#[test]
fn monthly_intake_counts_only_the_month() {
    let mut db = open_statistics();
    let a = new_beverage(&mut db, "A", Some(5_000));
    new_post(&mut db, "2024-01-31", &[(a, 100_000)]);
    new_post(&mut db, "2024-02-01", &[(a, 200_000)]);
    new_post(&mut db, "2024-02-29", &[(a, 300_000)]);
    new_post(&mut db, "2024-03-01", &[(a, 400_000)]);
    let summary = get_monthly_alcohol_intake(&mut db, 2024, 2).unwrap();
    assert_eq!(summary.total_intake, (200_000 + 300_000) * 5_000 * 8);
    assert_eq!(summary.average_per_day, (200_000 + 300_000) * 5_000 * 8 / 29);
    assert_eq!(summary.drinking_days, 2);
}

#[test]
fn monthly_intake_of_december() {
    let mut db = open_statistics();
    let a = new_beverage(&mut db, "A", Some(40_000));
    new_post(&mut db, "2023-12-31", &[(a, 30_000)]);
    new_post(&mut db, "2024-01-01", &[(a, 60_000)]);
    let summary = get_monthly_alcohol_intake(&mut db, 2023, 12).unwrap();
    assert_eq!(summary.total_intake, 30_000 * 40_000 * 8);
    assert_eq!(summary.drinking_days, 1);
}

#[test]
fn monthly_intake_counts_two_posts_of_one_date_once() {
    let mut db = open_statistics();
    let a = new_beverage(&mut db, "A", Some(5_000));
    new_post(&mut db, "2024-01-05", &[(a, 350_000)]);
    new_post(&mut db, "2024-01-05", &[(a, 500_000)]);
    let summary = get_monthly_alcohol_intake(&mut db, 2024, 1).unwrap();
    assert_eq!(summary.drinking_days, 1);
    assert_eq!(summary.total_intake, 850_000 * 5_000 * 8);
}

#[test]
fn monthly_intake_of_an_empty_month_is_zero() {
    let mut db = open_statistics();
    let summary = get_monthly_alcohol_intake(&mut db, 2024, 2).unwrap();
    assert_eq!(
        summary,
        MonthlyAlcoholIntake { total_intake: 0, average_per_day: 0, drinking_days: 0 }
    );
}

#[test]
fn monthly_intake_follows_the_present_strength() {
    let mut db = open_statistics();
    let a = new_beverage(&mut db, "A", Some(5_000));
    new_post(&mut db, "2024-01-05", &[(a, 500_000)]);
    nomi_log::commands::update_beverage(
        &mut db,
        a,
        CreateBeverageRequest { name: "A".to_string(), alcohol_content: Some(10_000), category_id: 1 },
    )
    .unwrap();
    let summary = get_monthly_alcohol_intake(&mut db, 2024, 1).unwrap();
    assert_eq!(summary.total_intake, 40_000_000_000);
}
