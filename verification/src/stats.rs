//! Statistics over the stored events: how many events each of the three
//! known pages has, and how many events of any page fall on each of the last
//! 30 days.
//!
//! The store hands over counted rows: a row stands for `count` events that
//! share a page, or a date. One row per event and one row per group give the
//! same totals, so the caller may group in the store or not at all.

use vstd::prelude::*;
use crate::calendar::{
    bucket_index, bucket_of, clock_reading, date_format, day_of_text, parse_day, utc_now,
    WINDOW_DAYS,
};
use crate::json::{int_list, Json, JsonView};
use crate::json_text::{
    distinct_keys, json_error_message, lemma_writable_array, lemma_writable_object, text_of_json,
    writable, JsonError,
};
use crate::response::Status;

verus! {

/// A number of stored events that share one page.
#[derive(Debug, Clone, PartialEq, Eq)]
pub struct PageCount {
    pub page: String,
    pub count: i64,
}

/// `PageCount` as mathematical values.
pub struct PageCountView {
    pub page: Seq<char>,
    pub count: int,
}

impl DeepView for PageCount {
    type V = PageCountView;

    open spec fn deep_view(&self) -> PageCountView {
        PageCountView { page: self.page@, count: self.count as int }
    }
}

/// A number of stored events whose timestamps start with the same ten
/// characters. `date` is `None` where the store holds no timestamp.
#[derive(Debug, Clone, PartialEq, Eq)]
pub struct DateCount {
    pub date: Option<String>,
    pub count: i64,
}

/// `DateCount` as mathematical values.
pub struct DateCountView {
    pub date: Option<Seq<char>>,
    pub count: int,
}

impl DeepView for DateCount {
    type V = DateCountView;

    open spec fn deep_view(&self) -> DateCountView {
        DateCountView { date: self.date.deep_view(), count: self.count as int }
    }
}

/// The statistics served to the client. Index 0 of `page_events_per_day` is
/// today, index 29 is 29 days ago.
#[derive(Debug, Clone, PartialEq, Eq)]
pub struct PageStats {
    pub daily_count: i64,
    pub training_count: i64,
    pub numbers_count: i64,
    pub page_events_per_day: Vec<i64>,
}

/// `PageStats` as mathematical values.
pub struct PageStatsView {
    pub daily_count: int,
    pub training_count: int,
    pub numbers_count: int,
    pub page_events_per_day: Seq<int>,
}

impl DeepView for PageStats {
    type V = PageStatsView;

    open spec fn deep_view(&self) -> PageStatsView {
        PageStatsView {
            daily_count: self.daily_count as int,
            training_count: self.training_count as int,
            numbers_count: self.numbers_count as int,
            page_events_per_day: self.page_events_per_day@.map_values(|c: i64| c as int),
        }
    }
}

/// The page whose events `daily_count` counts.
pub open spec fn daily_page() -> Seq<char> {
    "daily"@
}

/// The page whose events `training_count` counts.
pub open spec fn training_page() -> Seq<char> {
    "training"@
}

/// The page whose events `numbers_count` counts.
pub open spec fn numbers_page() -> Seq<char> {
    "numbers"@
}

/// The events that `row` holds for `page`: all of them where this is the page
/// of the row, none otherwise.
pub open spec fn page_share(row: PageCountView, page: Seq<char>) -> int {
    if row.page == page {
        row.count
    } else {
        0
    }
}

/// The number of events that `rows` hold for `page`.
pub open spec fn page_total(rows: Seq<PageCountView>, page: Seq<char>) -> int
    decreases rows.len(),
{
    if rows.len() == 0 {
        0
    } else {
        page_total(rows.drop_last(), page) + page_share(rows.last(), page)
    }
}

/// The number of events that `rows` hold, whatever their page.
pub open spec fn page_rows_total(rows: Seq<PageCountView>) -> int
    decreases rows.len(),
{
    if rows.len() == 0 {
        0
    } else {
        page_rows_total(rows.drop_last()) + rows.last().count
    }
}

/// No row counts a negative number of events, and all the rows together count
/// no more events than an `i64` holds.
pub open spec fn page_rows_fit(rows: Seq<PageCountView>) -> bool {
    &&& forall|i: int| 0 <= i < rows.len() ==> (#[trigger] rows[i]).count >= 0
    &&& page_rows_total(rows) <= i64::MAX
}

/// The day that the date of `row` denotes, where it denotes one.
pub open spec fn row_day(row: DateCountView) -> Option<i32> {
    match row.date {
        Some(text) => day_of_text(text, date_format()),
        None => None,
    }
}

/// The bucket that counts the events of a day as seen from `today`, where
/// the day is known and lies in the window.
pub open spec fn day_bucket(today: int, day: Option<i32>) -> Option<int> {
    match day {
        Some(day) => bucket_of(today, day as int),
        None => None,
    }
}

/// The events of `row` that fall into `bucket` as seen from `today`: all of
/// them where the date of the row is that many days back, none otherwise.
pub open spec fn row_share(row: DateCountView, today: int, bucket: int) -> int {
    if day_bucket(today, row_day(row)) == Some(bucket) {
        row.count
    } else {
        0
    }
}

/// The number of events that `rows` hold for the day `bucket` days before
/// `today`.
pub open spec fn bucket_total(rows: Seq<DateCountView>, today: int, bucket: int) -> int
    decreases rows.len(),
{
    if rows.len() == 0 {
        0
    } else {
        bucket_total(rows.drop_last(), today, bucket) + row_share(rows.last(), today, bucket)
    }
}

/// The number of events that `rows` hold, whatever their date.
pub open spec fn date_rows_total(rows: Seq<DateCountView>) -> int
    decreases rows.len(),
{
    if rows.len() == 0 {
        0
    } else {
        date_rows_total(rows.drop_last()) + rows.last().count
    }
}

/// No row counts a negative number of events, and all the rows together count
/// no more events than an `i64` holds.
pub open spec fn date_rows_fit(rows: Seq<DateCountView>) -> bool {
    &&& forall|i: int| 0 <= i < rows.len() ==> (#[trigger] rows[i]).count >= 0
    &&& date_rows_total(rows) <= i64::MAX
}

/// The activity histogram of `rows` as seen from `today`.
pub open spec fn activity_of(rows: Seq<DateCountView>, today: int) -> Seq<int> {
    Seq::new(WINDOW_DAYS as nat, |bucket: int| bucket_total(rows, today, bucket))
}

/// The statistics of the rows of the two queries, as seen from `today`.
pub open spec fn stats_of(
    page_rows: Seq<PageCountView>,
    date_rows: Seq<DateCountView>,
    today: int,
) -> PageStatsView {
    PageStatsView {
        daily_count: page_total(page_rows, daily_page()),
        training_count: page_total(page_rows, training_page()),
        numbers_count: page_total(page_rows, numbers_page()),
        page_events_per_day: activity_of(date_rows, today),
    }
}

/// One more row adds its share to the total of a page.
pub proof fn lemma_page_total_push(rows: Seq<PageCountView>, row: PageCountView, page: Seq<char>)
    ensures
        page_total(rows.push(row), page) == page_total(rows, page) + page_share(row, page),
        page_rows_total(rows.push(row)) == page_rows_total(rows) + row.count,
{
    assert(rows.push(row).drop_last() =~= rows);
}

/// One more row adds its share to the total of a bucket.
pub proof fn lemma_bucket_total_push(
    rows: Seq<DateCountView>,
    row: DateCountView,
    today: int,
    bucket: int,
)
    ensures
        bucket_total(rows.push(row), today, bucket) == bucket_total(rows, today, bucket)
            + row_share(row, today, bucket),
        date_rows_total(rows.push(row)) == date_rows_total(rows) + row.count,
{
    assert(rows.push(row).drop_last() =~= rows);
}

proof fn lemma_page_total_bounds(rows: Seq<PageCountView>, page: Seq<char>)
    requires
        forall|i: int| 0 <= i < rows.len() ==> (#[trigger] rows[i]).count >= 0,
    ensures
        0 <= page_total(rows, page) <= page_rows_total(rows),
    decreases rows.len(),
{
    if rows.len() > 0 {
        lemma_page_total_bounds(rows.drop_last(), page);
    }
}

proof fn lemma_page_rows_prefix(rows: Seq<PageCountView>, n: int)
    requires
        forall|i: int| 0 <= i < rows.len() ==> (#[trigger] rows[i]).count >= 0,
        0 <= n <= rows.len(),
    ensures
        0 <= page_rows_total(rows.take(n)) <= page_rows_total(rows),
    decreases rows.len() - n,
{
    if n < rows.len() {
        assert(rows.take(n + 1) =~= rows.take(n).push(rows[n]));
        lemma_page_total_push(rows.take(n), rows[n], Seq::empty());
        lemma_page_rows_prefix(rows, n + 1);
        lemma_page_total_bounds(rows.take(n), Seq::empty());
    } else {
        assert(rows.take(n) =~= rows);
        lemma_page_total_bounds(rows, Seq::empty());
    }
}

proof fn lemma_bucket_total_bounds(rows: Seq<DateCountView>, today: int, bucket: int)
    requires
        forall|i: int| 0 <= i < rows.len() ==> (#[trigger] rows[i]).count >= 0,
    ensures
        0 <= bucket_total(rows, today, bucket) <= date_rows_total(rows),
    decreases rows.len(),
{
    if rows.len() > 0 {
        lemma_bucket_total_bounds(rows.drop_last(), today, bucket);
    }
}

proof fn lemma_date_rows_prefix(rows: Seq<DateCountView>, n: int)
    requires
        forall|i: int| 0 <= i < rows.len() ==> (#[trigger] rows[i]).count >= 0,
        0 <= n <= rows.len(),
    ensures
        0 <= date_rows_total(rows.take(n)) <= date_rows_total(rows),
    decreases rows.len() - n,
{
    if n < rows.len() {
        assert(rows.take(n + 1) =~= rows.take(n).push(rows[n]));
        lemma_bucket_total_push(rows.take(n), rows[n], 0, 0);
        lemma_date_rows_prefix(rows, n + 1);
        lemma_bucket_total_bounds(rows.take(n), 0, 0);
    } else {
        assert(rows.take(n) =~= rows);
        lemma_bucket_total_bounds(rows, 0, 0);
    }
}

/// The number of events that `rows` hold for the date text `date`.
pub open spec fn date_total(rows: Seq<DateCountView>, date: Option<Seq<char>>) -> int
    decreases rows.len(),
{
    if rows.len() == 0 {
        0
    } else {
        date_total(rows.drop_last(), date) + if rows.last().date == date {
            rows.last().count
        } else {
            0
        }
    }
}

/// `rows` without the rows of the date text `date`.
spec fn without_date(rows: Seq<DateCountView>, date: Option<Seq<char>>) -> Seq<DateCountView>
    decreases rows.len(),
{
    if rows.len() == 0 {
        rows
    } else if rows.last().date == date {
        without_date(rows.drop_last(), date)
    } else {
        without_date(rows.drop_last(), date).push(rows.last())
    }
}

/// The date text `date` denotes the day `bucket` days before `today`.
spec fn date_in_bucket(date: Option<Seq<char>>, today: int, bucket: int) -> bool {
    day_bucket(today, row_day(DateCountView { date, count: 0 })) == Some(bucket)
}

proof fn lemma_without_date(rows: Seq<DateCountView>, date: Option<Seq<char>>, today: int)
    ensures
        without_date(rows, date).len() <= rows.len(),
        rows.len() > 0 && rows.last().date == date ==> without_date(rows, date).len() < rows.len(),
        forall|other: Option<Seq<char>>|
            #[trigger] date_total(without_date(rows, date), other) == if other == date {
                0
            } else {
                date_total(rows, other)
            },
        forall|bucket: int|
            #[trigger] bucket_total(rows, today, bucket) == bucket_total(
                without_date(rows, date),
                today,
                bucket,
            ) + if date_in_bucket(date, today, bucket) {
                date_total(rows, date)
            } else {
                0
            },
    decreases rows.len(),
{
    if rows.len() > 0 {
        let front = rows.drop_last();
        let last = rows.last();
        let rest = without_date(front, date);
        lemma_without_date(front, date, today);
        assert forall|other: Option<Seq<char>>|
            #[trigger] date_total(without_date(rows, date), other) == if other == date {
                0
            } else {
                date_total(rows, other)
            } by {
            assert(date_total(rest, other) == if other == date {
                0
            } else {
                date_total(front, other)
            });
            if last.date != date {
                assert(rest.push(last).drop_last() =~= rest);
                assert(rest.push(last).last() == last);
            }
        }
        assert forall|bucket: int|
            #[trigger] bucket_total(rows, today, bucket) == bucket_total(
                without_date(rows, date),
                today,
                bucket,
            ) + if date_in_bucket(date, today, bucket) {
                date_total(rows, date)
            } else {
                0
            } by {
            assert(bucket_total(front, today, bucket) == bucket_total(rest, today, bucket)
                + if date_in_bucket(date, today, bucket) {
                date_total(front, date)
            } else {
                0
            });
            if last.date != date {
                lemma_bucket_total_push(rest, last, today, bucket);
            } else {
                assert(row_day(last) == row_day(DateCountView { date, count: 0 }));
            }
        }
    }
}

/// The histogram depends on the rows only through the number of events that
/// they hold for each date text. Rows that hold the same number
/// for every date text, however the events are spread over the rows and in
/// whatever order the rows come, give the same histogram.
pub proof fn lemma_histogram_of_grouping(
    first: Seq<DateCountView>,
    second: Seq<DateCountView>,
    today: int,
)
    requires
        forall|date: Option<Seq<char>>| date_total(first, date) == date_total(second, date),
    ensures
        activity_of(first, today) == activity_of(second, today),
    decreases first.len() + second.len(),
{
    if first.len() + second.len() > 0 {
        let date = if first.len() > 0 {
            first.last().date
        } else {
            second.last().date
        };
        lemma_without_date(first, date, today);
        lemma_without_date(second, date, today);
        let first_rest = without_date(first, date);
        let second_rest = without_date(second, date);
        assert forall|other: Option<Seq<char>>|
            date_total(first_rest, other) == date_total(second_rest, other) by {
            assert(date_total(first, other) == date_total(second, other));
        }
        lemma_histogram_of_grouping(first_rest, second_rest, today);
        assert forall|bucket: int| 0 <= bucket < WINDOW_DAYS implies bucket_total(
            first,
            today,
            bucket,
        ) == bucket_total(second, today, bucket) by {
            assert(date_total(first, date) == date_total(second, date));
            assert(activity_of(first_rest, today)[bucket] == activity_of(second_rest, today)[bucket]);
        }
    }
    assert(activity_of(first, today) =~= activity_of(second, today));
}

/// The statistics depend on the rows only through the number of events that
/// they hold for each page and for each date text. One row for
/// each event and one row for each group give the same statistics.
pub proof fn lemma_stats_of_grouping(
    first_pages: Seq<PageCountView>,
    second_pages: Seq<PageCountView>,
    first_dates: Seq<DateCountView>,
    second_dates: Seq<DateCountView>,
    today: int,
)
    requires
        forall|page: Seq<char>| page_total(first_pages, page) == page_total(second_pages, page),
        forall|date: Option<Seq<char>>|
            date_total(first_dates, date) == date_total(second_dates, date),
    ensures
        stats_of(first_pages, first_dates, today) == stats_of(second_pages, second_dates, today),
{
    lemma_histogram_of_grouping(first_dates, second_dates, today);
}

/// Counts the events of one page.
pub fn count_page(rows: &Vec<PageCount>, page: &str) -> (count: i64)
    requires
        page_rows_fit(rows.deep_view()),
    ensures
        count == page_total(rows.deep_view(), page@),
{
    let ghost views = rows.deep_view();
    let wanted = page.to_owned();
    let mut count: i64 = 0;
    let mut i: usize = 0;
    while i < rows.len()
        invariant
            0 <= i <= rows.len(),
            views == rows.deep_view(),
            page_rows_fit(views),
            wanted@ == page@,
            count == page_total(views.take(i as int), page@),
        decreases rows.len() - i,
    {
        proof {
            assert(views.take(i as int + 1) =~= views.take(i as int).push(views[i as int]));
            lemma_page_total_push(views.take(i as int), views[i as int], page@);
            lemma_page_total_bounds(views.take(i as int + 1), page@);
            lemma_page_rows_prefix(views, i as int + 1);
        }
        if rows[i].page == wanted {
            count = count + rows[i].count;
        }
        i = i + 1;
    }
    proof {
        assert(views.take(rows.len() as int) =~= views);
    }
    count
}

/// Adds the `count` events of one day to the bucket of that day, where the
/// day is known and lies in the window as seen from `today`. Any other day
/// leaves the histogram as it is.
pub fn record_day(buckets: &mut Vec<i64>, today: i32, day: Option<i32>, count: i64)
    requires
        old(buckets).len() == WINDOW_DAYS,
        day_bucket(today as int, day) matches Some(k) ==> i64::MIN <= old(buckets)[k] + count
            <= i64::MAX,
    ensures
        final(buckets)@ == match day_bucket(today as int, day) {
            Some(k) => old(buckets)@.update(k, (old(buckets)[k] + count) as i64),
            None => old(buckets)@,
        },
{
    match day {
        Some(day) => {
            match bucket_index(today, day) {
                Some(index) => {
                    let sum = buckets[index] + count;
                    buckets.set(index, sum);
                },
                None => {},
            }
        },
        None => {},
    }
}

/// Builds the activity histogram: for each of the last 30 days, the number
/// of events whose date is that day. A row without a date, with a date that
/// does not read as `YYYY-MM-DD`, with a date after `today` or 30 or more
/// days back counts nowhere.
pub fn activity(rows: &Vec<DateCount>, today: i32) -> (buckets: Vec<i64>)
    requires
        date_rows_fit(rows.deep_view()),
    ensures
        buckets.len() == WINDOW_DAYS,
        buckets@.map_values(|c: i64| c as int) == activity_of(rows.deep_view(), today as int),
{
    let ghost views = rows.deep_view();
    let mut buckets: Vec<i64> = Vec::new();
    let mut k: usize = 0;
    while k < WINDOW_DAYS
        invariant
            0 <= k <= WINDOW_DAYS,
            buckets.len() == k,
            forall|j: int| 0 <= j < k ==> buckets[j] == 0,
        decreases WINDOW_DAYS - k,
    {
        buckets.push(0);
        k = k + 1;
    }
    let mut i: usize = 0;
    while i < rows.len()
        invariant
            0 <= i <= rows.len(),
            views == rows.deep_view(),
            date_rows_fit(views),
            buckets.len() == WINDOW_DAYS,
            forall|j: int|
                0 <= j < WINDOW_DAYS ==> buckets[j] == bucket_total(
                    views.take(i as int),
                    today as int,
                    j,
                ),
        decreases rows.len() - i,
    {
        let row = &rows[i];
        let day = match &row.date {
            Some(text) => parse_day(text.as_str()),
            None => None,
        };
        proof {
            assert(views.take(i as int + 1) =~= views.take(i as int).push(views[i as int]));
            assert(row_day(views[i as int]) == day);
            lemma_date_rows_prefix(views, i as int + 1);
            assert forall|j: int| 0 <= j < WINDOW_DAYS implies i64::MIN <= #[trigger] buckets[j]
                + row.count <= i64::MAX && bucket_total(views.take(i as int + 1), today as int, j)
                == bucket_total(views.take(i as int), today as int, j) + row_share(
                views[i as int],
                today as int,
                j,
            ) by {
                lemma_bucket_total_push(views.take(i as int), views[i as int], today as int, j);
                lemma_bucket_total_bounds(views.take(i as int), today as int, j);
                lemma_bucket_total_bounds(views.take(i as int), 0, 0);
            }
        }
        record_day(&mut buckets, today, day, row.count);
        i = i + 1;
    }
    proof {
        assert(views.take(rows.len() as int) =~= views);
        assert(buckets@.map_values(|c: i64| c as int) =~= activity_of(views, today as int));
    }
    buckets
}

/// Computes the statistics from the rows of the two queries: the counts of
/// the pages `daily`, `training` and `numbers` (rows of any other page count
/// for none of them) and the activity histogram as seen from `today`.
pub fn compute_stats(
    page_rows: &Vec<PageCount>,
    date_rows: &Vec<DateCount>,
    today: i32,
) -> (stats: PageStats)
    requires
        page_rows_fit(page_rows.deep_view()),
        date_rows_fit(date_rows.deep_view()),
    ensures
        stats.page_events_per_day.len() == WINDOW_DAYS,
        stats.deep_view() == stats_of(
            page_rows.deep_view(),
            date_rows.deep_view(),
            today as int,
        ),
{
    PageStats {
        daily_count: count_page(page_rows, "daily"),
        training_count: count_page(page_rows, "training"),
        numbers_count: count_page(page_rows, "numbers"),
        page_events_per_day: activity(date_rows, today),
    }
}

/// As `compute_stats`, seen from the day that the machine's clock gives for
/// UTC, which is not before 1970.
pub fn compute_stats_now(
    page_rows: &Vec<PageCount>,
    date_rows: &Vec<DateCount>,
) -> (stats: PageStats)
    requires
        page_rows_fit(page_rows.deep_view()),
        date_rows_fit(date_rows.deep_view()),
    ensures
        stats.page_events_per_day.len() == WINDOW_DAYS,
        exists|timestamp: Seq<char>, today: i32|
            clock_reading(timestamp, today) && stats.deep_view() == stats_of(
                page_rows.deep_view(),
                date_rows.deep_view(),
                today as int,
            ),
{
    let now = utc_now();
    let stats = compute_stats(page_rows, date_rows, now.1);
    proof {
        assert(clock_reading(now.0@, now.1) && stats.deep_view() == stats_of(
            page_rows.deep_view(),
            date_rows.deep_view(),
            now.1 as int,
        ));
    }
    stats
}

/// Tells whether rows can be counted: whether no row counts a negative
/// number of events and all the rows together count no more than an `i64`
/// holds.
pub fn page_rows_fit_in(rows: &Vec<PageCount>) -> (fit: bool)
    ensures
        fit == page_rows_fit(rows.deep_view()),
{
    let ghost views = rows.deep_view();
    let mut total: i64 = 0;
    let mut i: usize = 0;
    while i < rows.len()
        invariant
            0 <= i <= rows.len(),
            views == rows.deep_view(),
            forall|k: int| 0 <= k < i ==> (#[trigger] views[k]).count >= 0,
            total == page_rows_total(views.take(i as int)),
            0 <= total,
        decreases rows.len() - i,
    {
        proof {
            assert(views.take(i as int + 1) =~= views.take(i as int).push(views[i as int]));
            lemma_page_total_push(views.take(i as int), views[i as int], Seq::empty());
        }
        if rows[i].count < 0 {
            proof {
                assert(views[i as int].count < 0);
            }
            return false;
        }
        if rows[i].count > i64::MAX - total {
            proof {
                if page_rows_fit(views) {
                    lemma_page_rows_prefix(views, i as int + 1);
                }
            }
            return false;
        }
        total = total + rows[i].count;
        i = i + 1;
    }
    proof {
        assert(views.take(rows.len() as int) =~= views);
    }
    true
}

/// As `page_rows_fit_in`, for rows by date.
pub fn date_rows_fit_in(rows: &Vec<DateCount>) -> (fit: bool)
    ensures
        fit == date_rows_fit(rows.deep_view()),
{
    let ghost views = rows.deep_view();
    let mut total: i64 = 0;
    let mut i: usize = 0;
    while i < rows.len()
        invariant
            0 <= i <= rows.len(),
            views == rows.deep_view(),
            forall|k: int| 0 <= k < i ==> (#[trigger] views[k]).count >= 0,
            total == date_rows_total(views.take(i as int)),
            0 <= total,
        decreases rows.len() - i,
    {
        proof {
            assert(views.take(i as int + 1) =~= views.take(i as int).push(views[i as int]));
            lemma_bucket_total_push(views.take(i as int), views[i as int], 0, 0);
        }
        if rows[i].count < 0 {
            proof {
                assert(views[i as int].count < 0);
            }
            return false;
        }
        if rows[i].count > i64::MAX - total {
            proof {
                if date_rows_fit(views) {
                    lemma_date_rows_prefix(views, i as int + 1);
                }
            }
            return false;
        }
        total = total + rows[i].count;
        i = i + 1;
    }
    proof {
        assert(views.take(rows.len() as int) =~= views);
    }
    true
}

/// The JSON form of the statistics.
pub open spec fn encode_stats(stats: PageStatsView) -> JsonView {
    JsonView::Object(
        seq![
            ("daily_count"@, JsonView::Int(stats.daily_count as i64)),
            ("training_count"@, JsonView::Int(stats.training_count as i64)),
            ("numbers_count"@, JsonView::Int(stats.numbers_count as i64)),
            (
                "page_events_per_day"@,
                JsonView::Array(
                    Seq::new(
                        stats.page_events_per_day.len(),
                        |i: int| JsonView::Int(stats.page_events_per_day[i] as i64),
                    ),
                ),
            ),
        ],
    )
}

/// The JSON form of the statistics can be written as text.
pub proof fn lemma_encoded_stats_writable(stats: PageStatsView)
    ensures
        writable(encode_stats(stats)),
{
    reveal_strlit("daily_count");
    reveal_strlit("training_count");
    reveal_strlit("numbers_count");
    reveal_strlit("page_events_per_day");
    assert("daily_count"@.len() == 11);
    assert("training_count"@.len() == 14);
    assert("numbers_count"@.len() == 13);
    assert("page_events_per_day"@.len() == 19);
    let members = encode_stats(stats)->Object_0;
    assert(members.len() == 4);
    assert(distinct_keys(members));
    lemma_writable_array(members[3].1->Array_0);
    lemma_writable_object(members);
}

/// The answer that serves statistics, from the outcome of writing them:
/// `200 OK` with the text where they were written, status 500 with the
/// message of the failure where they were not.
pub fn stats_answer(written: Result<String, JsonError>) -> (response: (Status, String))
    ensures
        match written {
            Ok(text) => response.0 == Status::Success && response.1@ == text@,
            Err(error) => response.0 == Status::InternalServerError && response.1@
                == json_error_message(error),
        },
{
    match written {
        Ok(text) => (Status::Success, text),
        Err(error) => (Status::InternalServerError, error.message()),
    }
}

impl PageStats {
    /// Writes the statistics as a JSON object with the members `daily_count`,
    /// `training_count`, `numbers_count` and `page_events_per_day`. The object
    /// can be written as text.
    pub fn encode(&self) -> (json: Json)
        ensures
            json.deep_view() == encode_stats(self.deep_view()),
            writable(json.deep_view()),
    {
        proof {
            lemma_encoded_stats_writable(self.deep_view());
        }
        let mut members: Vec<(String, Json)> = Vec::new();
        members.push(Json::member("daily_count", Json::integer(self.daily_count)));
        members.push(Json::member("training_count", Json::integer(self.training_count)));
        members.push(Json::member("numbers_count", Json::integer(self.numbers_count)));
        members.push(
            Json::member("page_events_per_day", Json::int_list(&self.page_events_per_day)),
        );
        proof {
            let want = encode_stats(self.deep_view())->Object_0;
            assert(int_list(self.page_events_per_day@)->Array_0 =~= want[3].1->Array_0);
            assert(members.deep_view() =~= want);
        }
        Json::object(members)
    }

    /// Writes the statistics as JSON text and makes the answer that serves
    /// them: `200 OK` with the text. Statistics can always be written.
    pub fn respond(&self) -> (response: (Status, String))
        ensures
            response.0 == Status::Success,
            response.1@ == text_of_json(encode_stats(self.deep_view())),
    {
        stats_answer(self.encode().to_text())
    }
}

} // verus!
