use page_events::calendar::{bucket_index, parse_day, DATE_CHARS, WINDOW_DAYS};
use page_events::json_text::JsonError;
use page_events::response::Status;
use page_events::stats::{
    activity, compute_stats, compute_stats_now, count_page, date_rows_fit_in, page_rows_fit_in,
    record_day, stats_answer, DateCount, PageCount, PageStats,
};

fn page(page: &str, count: i64) -> PageCount {
    PageCount { page: String::from(page), count }
}

fn date(date: &str, count: i64) -> DateCount {
    DateCount { date: Some(String::from(date)), count }
}

fn zeros() -> Vec<i64> {
    vec![0; 30]
}

fn with(buckets: &[(usize, i64)]) -> Vec<i64> {
    let mut all = zeros();
    for (index, count) in buckets {
        all[*index] = *count;
    }
    all
}

#[test]
fn window_is_thirty_days_and_dates_have_ten_characters() {
    assert_eq!(WINDOW_DAYS, 30);
    assert_eq!(DATE_CHARS, 10);
}

#[test]
fn parse_day_counts_days_from_year_one() {
    assert_eq!(parse_day("0001-01-01"), Some(1));
    assert_eq!(parse_day("1970-01-01"), Some(719163));
    assert_eq!(parse_day("2024-02-29"), Some(738945));
    assert_eq!(parse_day("2024-03-01"), Some(738946));
}

#[test]
fn parse_day_reads_dates_as_chrono_does() {
    assert_eq!(parse_day("2024-3-1"), Some(738946));
    assert_eq!(parse_day(" 2024-03-01"), Some(738946));
    assert_eq!(parse_day("+2024-03-01"), Some(738946));
}

#[test]
fn parse_day_rejects_what_is_no_date() {
    assert_eq!(parse_day(""), None);
    assert_eq!(parse_day("not a date"), None);
    assert_eq!(parse_day("2024-02-30"), None);
    assert_eq!(parse_day("2023-02-29"), None);
    assert_eq!(parse_day("2024-13-01"), None);
    assert_eq!(parse_day("2024-03-01T10:00:00+00:00"), None);
    assert_eq!(parse_day("2024/03/01"), None);
}

#[test]
fn bucket_index_counts_days_back() {
    assert_eq!(bucket_index(738946, 738946), Some(0));
    assert_eq!(bucket_index(738946, 738945), Some(1));
    assert_eq!(bucket_index(738946, 738917), Some(29));
}

#[test]
fn bucket_index_has_no_bucket_outside_the_window() {
    assert_eq!(bucket_index(738946, 738916), None);
    assert_eq!(bucket_index(738946, 738947), None);
    assert_eq!(bucket_index(738946, 0), None);
    assert_eq!(bucket_index(i32::MIN, i32::MAX), None);
    assert_eq!(bucket_index(i32::MAX, i32::MIN), None);
}

#[test]
fn record_day_adds_to_the_bucket_of_the_day() {
    let mut buckets = with(&[(3, 5)]);
    record_day(&mut buckets, 100, Some(97), 2);
    assert_eq!(buckets, with(&[(3, 7)]));
    record_day(&mut buckets, 100, Some(100), 1);
    assert_eq!(buckets, with(&[(0, 1), (3, 7)]));
    record_day(&mut buckets, 100, Some(71), 4);
    assert_eq!(buckets, with(&[(0, 1), (3, 7), (29, 4)]));
}

#[test]
fn record_day_leaves_the_histogram_for_days_without_a_bucket() {
    let mut buckets = with(&[(3, 5)]);
    record_day(&mut buckets, 100, None, 2);
    record_day(&mut buckets, 100, Some(70), 2);
    record_day(&mut buckets, 100, Some(101), 2);
    assert_eq!(buckets, with(&[(3, 5)]));
}

#[test]
fn count_page_sums_the_rows_of_the_page() {
    let rows = vec![page("daily", 3), page("numbers", 2), page("daily", 4), page("Daily", 9)];
    assert_eq!(count_page(&rows, "daily"), 7);
    assert_eq!(count_page(&rows, "numbers"), 2);
    assert_eq!(count_page(&rows, "training"), 0);
    assert_eq!(count_page(&vec![], "daily"), 0);
}

#[test]
fn activity_of_no_rows_is_thirty_zeros() {
    assert_eq!(activity(&vec![], 738946), zeros());
}

#[test]
fn activity_counts_each_day_of_the_window() {
    let today = parse_day("2024-03-01").unwrap();
    let rows = vec![
        date("2024-03-01", 2),
        date("2024-02-29", 5),
        date("2024-02-01", 7),
        date("2024-03-01", 1),
    ];
    assert_eq!(activity(&rows, today), with(&[(0, 3), (1, 5), (29, 7)]));
}

#[test]
fn histogram_bounds() {
    let today = parse_day("2024-03-01").unwrap();
    // 29 days before today.
    assert_eq!(activity(&vec![date("2024-02-01", 1)], today), with(&[(29, 1)]));
    // 30 days before today.
    assert_eq!(activity(&vec![date("2024-01-31", 1)], today), zeros());
    // In the future.
    assert_eq!(activity(&vec![date("2024-03-02", 1)], today), zeros());
    assert_eq!(activity(&vec![date("2025-03-01", 1)], today), zeros());
}

#[test]
fn activity_skips_rows_without_a_date() {
    let today = parse_day("2024-03-01").unwrap();
    let rows = vec![
        DateCount { date: None, count: 4 },
        date("", 4),
        date("garbage!!!", 4),
        date("2024-02-30", 4),
        date("2024-02-28", 6),
    ];
    assert_eq!(activity(&rows, today), with(&[(2, 6)]));
}

#[test]
fn compute_stats_counts_pages_and_days() {
    let today = parse_day("2024-03-01").unwrap();
    let page_rows = vec![page("daily", 3), page("training", 4), page("numbers", 5), page("other", 6)];
    let date_rows = vec![date("2024-03-01", 10), date("2024-02-20", 8)];
    assert_eq!(
        compute_stats(&page_rows, &date_rows, today),
        PageStats {
            daily_count: 3,
            training_count: 4,
            numbers_count: 5,
            page_events_per_day: with(&[(0, 10), (10, 8)]),
        }
    );
}

#[test]
fn compute_stats_of_an_empty_store() {
    assert_eq!(
        compute_stats(&vec![], &vec![], 738946),
        PageStats {
            daily_count: 0,
            training_count: 0,
            numbers_count: 0,
            page_events_per_day: zeros(),
        }
    );
}

#[test]
fn grouped_and_single_rows_give_the_same_statistics() {
    let today = parse_day("2024-03-01").unwrap();
    let grouped = compute_stats(
        &vec![page("daily", 2), page("numbers", 1)],
        &vec![date("2024-03-01", 2), date("2024-02-29", 1)],
        today,
    );
    let single = compute_stats(
        &vec![page("daily", 1), page("numbers", 1), page("daily", 1)],
        &vec![date("2024-03-01", 1), date("2024-02-29", 1), date("2024-03-01", 1)],
        today,
    );
    assert_eq!(grouped, single);
}

#[test]
fn compute_stats_now_counts_pages() {
    let stats = compute_stats_now(&vec![page("daily", 3), page("numbers", 2)], &vec![]);
    assert_eq!(stats.daily_count, 3);
    assert_eq!(stats.training_count, 0);
    assert_eq!(stats.numbers_count, 2);
    assert_eq!(stats.page_events_per_day, zeros());
}

#[test]
fn compute_stats_now_sees_a_distant_day_outside_the_window() {
    let stats = compute_stats_now(&vec![], &vec![date("1999-12-31", 5)]);
    assert_eq!(stats.page_events_per_day, zeros());
}

#[test]
fn rows_fit_where_counts_are_counts() {
    assert!(page_rows_fit_in(&vec![]));
    assert!(page_rows_fit_in(&vec![page("a", 0), page("b", i64::MAX)]));
    assert!(!page_rows_fit_in(&vec![page("a", 1), page("b", i64::MAX)]));
    assert!(!page_rows_fit_in(&vec![page("a", -1)]));
    assert!(!page_rows_fit_in(&vec![page("a", i64::MAX), page("b", -1)]));
    assert!(date_rows_fit_in(&vec![]));
    assert!(date_rows_fit_in(&vec![date("x", i64::MAX - 1), DateCount { date: None, count: 1 }]));
    assert!(!date_rows_fit_in(&vec![date("x", i64::MAX), DateCount { date: None, count: 1 }]));
    assert!(!date_rows_fit_in(&vec![date("x", -5)]));
}

#[test]
fn stats_text_is_exact() {
    let stats = PageStats {
        daily_count: 1,
        training_count: 2,
        numbers_count: 3,
        page_events_per_day: vec![4, 0, 5],
    };
    assert_eq!(
        stats.encode().to_text().unwrap(),
        "{\"daily_count\":1,\"training_count\":2,\"numbers_count\":3,\"page_events_per_day\":[4,0,5]}"
    );
}

#[test]
fn stats_are_served_as_json() {
    let stats = compute_stats(&vec![page("daily", 1)], &vec![date("2024-03-01", 1)], 738946);
    let (status, body) = stats.respond();
    assert_eq!(status, Status::Success);
    assert_eq!(
        body,
        "{\"daily_count\":1,\"training_count\":0,\"numbers_count\":0,\"page_events_per_day\":[1,0,0,0,0,0,0,0,0,0,0,0,0,0,0,0,0,0,0,0,0,0,0,0,0,0,0,0,0,0]}"
    );
}

#[test]
fn stats_answer_maps_the_outcome_of_writing() {
    assert_eq!(stats_answer(Ok(String::from("{}"))), (Status::Success, String::from("{}")));
    assert_eq!(
        stats_answer(Err(JsonError::Write(String::from("broken")))),
        (Status::InternalServerError, String::from("broken"))
    );
    assert_eq!(
        stats_answer(Err(JsonError::NotWritable)),
        (Status::InternalServerError, String::from("value cannot be written as JSON"))
    );
}

#[test]
fn statistics_are_always_served_with_status_200() {
    for stats in [
        compute_stats(&vec![], &vec![], 738946),
        compute_stats(&vec![page("daily", i64::MAX)], &vec![date("2024-03-01", i64::MAX)], 738946),
        PageStats {
            daily_count: i64::MIN,
            training_count: -1,
            numbers_count: 0,
            page_events_per_day: vec![],
        },
    ] {
        let (status, body) = stats.respond();
        assert_eq!(status, Status::Success);
        assert_eq!(body, stats.encode().to_text().unwrap());
    }
}

#[test]
fn compute_stats_now_sees_today_in_bucket_zero_or_one() {
    // The day of the clock is not before 1970: a row of 1 January 1970 lies
    // in no bucket, being far more than 30 days back.
    let stats = compute_stats_now(&vec![], &vec![date("1970-01-01", 1)]);
    assert_eq!(stats.page_events_per_day, zeros());
}
