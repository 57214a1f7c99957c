//! The event store as this service sees it: rows that are appended and never
//! changed, and the statistics of a list of rows.

use vstd::prelude::*;
use crate::calendar::{date_format, date_prefix, day_of_text, DATE_CHARS, WINDOW_DAYS};
use crate::stats::{
    compute_stats, daily_page, date_rows_total, date_total, day_bucket, lemma_bucket_total_push,
    lemma_page_total_push, lemma_stats_of_grouping, numbers_page, page_rows_total, page_total,
    stats_of, training_page, DateCount, DateCountView, PageCount, PageCountView, PageStats,
    PageStatsView,
};

verus! {

/// A row of the table `page_events`, without its id. `details` is the event
/// as JSON text, `timestamp` the time of its arrival in RFC 3339 form.
#[derive(Debug, Clone, PartialEq, Eq)]
pub struct StoredEvent {
    pub page: String,
    pub uuid: String,
    pub details: String,
    pub timestamp: String,
}

/// `StoredEvent` as mathematical values.
pub struct StoredEventView {
    pub page: Seq<char>,
    pub uuid: Seq<char>,
    pub details: Seq<char>,
    pub timestamp: Seq<char>,
}

impl DeepView for StoredEvent {
    type V = StoredEventView;

    open spec fn deep_view(&self) -> StoredEventView {
        StoredEventView {
            page: self.page@,
            uuid: self.uuid@,
            details: self.details@,
            timestamp: self.timestamp@,
        }
    }
}

/// The row that counts `event` for its page.
pub open spec fn page_row(event: StoredEventView) -> PageCountView {
    PageCountView { page: event.page, count: 1 }
}

/// The row that counts `event` for its date.
pub open spec fn date_row(event: StoredEventView) -> DateCountView {
    DateCountView { date: Some(date_prefix(event.timestamp)), count: 1 }
}

/// One row for each stored event, by page.
pub open spec fn page_rows(store: Seq<StoredEventView>) -> Seq<PageCountView> {
    Seq::new(store.len(), |i: int| page_row(store[i]))
}

/// One row for each stored event, by date.
pub open spec fn date_rows(store: Seq<StoredEventView>) -> Seq<DateCountView> {
    Seq::new(store.len(), |i: int| date_row(store[i]))
}

/// The statistics of the stored events as seen from `today`.
pub open spec fn store_stats(store: Seq<StoredEventView>, today: int) -> PageStatsView {
    stats_of(page_rows(store), date_rows(store), today)
}

/// The bucket of the histogram that counts `event` as seen from `today`,
/// where there is one.
pub open spec fn event_bucket(event: StoredEventView, today: int) -> Option<int> {
    day_bucket(today, day_of_text(date_prefix(event.timestamp), date_format()))
}

/// Cuts the date part off a timestamp.
pub fn date_prefix_of(timestamp: &str) -> (prefix: String)
    ensures
        prefix@ == date_prefix(timestamp@),
{
    if timestamp.unicode_len() <= DATE_CHARS {
        timestamp.to_owned()
    } else {
        timestamp.substring_char(0, DATE_CHARS).to_owned()
    }
}

proof fn lemma_rows_total(store: Seq<StoredEventView>)
    ensures
        page_rows_total(page_rows(store)) == store.len(),
        date_rows_total(date_rows(store)) == store.len(),
    decreases store.len(),
{
    if store.len() > 0 {
        lemma_rows_total(store.drop_last());
        assert(page_rows(store).drop_last() =~= page_rows(store.drop_last()));
        assert(date_rows(store).drop_last() =~= date_rows(store.drop_last()));
    }
}

/// Makes one row for each stored event, by page.
pub fn page_rows_of(store: &Vec<StoredEvent>) -> (rows: Vec<PageCount>)
    ensures
        rows.deep_view() == page_rows(store.deep_view()),
{
    let mut rows: Vec<PageCount> = Vec::new();
    let mut i: usize = 0;
    while i < store.len()
        invariant
            0 <= i <= store.len(),
            rows.len() == i,
            forall|k: int| 0 <= k < i ==> rows[k].deep_view() == page_row(store[k].deep_view()),
        decreases store.len() - i,
    {
        rows.push(PageCount { page: store[i].page.clone(), count: 1 });
        i = i + 1;
    }
    proof {
        assert(rows.deep_view() =~= page_rows(store.deep_view()));
    }
    rows
}

/// Makes one row for each stored event, by the date part of its timestamp.
pub fn date_rows_of(store: &Vec<StoredEvent>) -> (rows: Vec<DateCount>)
    ensures
        rows.deep_view() == date_rows(store.deep_view()),
{
    let mut rows: Vec<DateCount> = Vec::new();
    let mut i: usize = 0;
    while i < store.len()
        invariant
            0 <= i <= store.len(),
            rows.len() == i,
            forall|k: int| 0 <= k < i ==> rows[k].deep_view() == date_row(store[k].deep_view()),
        decreases store.len() - i,
    {
        rows.push(DateCount { date: Some(date_prefix_of(store[i].timestamp.as_str())), count: 1 });
        i = i + 1;
    }
    proof {
        assert(rows.deep_view() =~= date_rows(store.deep_view()));
    }
    rows
}

/// Computes the statistics of the stored events in one pass over them, as
/// seen from `today`.
pub fn stats_of_store(store: &Vec<StoredEvent>, today: i32) -> (stats: PageStats)
    requires
        store.len() <= i64::MAX,
    ensures
        stats.page_events_per_day.len() == WINDOW_DAYS,
        stats.deep_view() == store_stats(store.deep_view(), today as int),
{
    let page_rows = page_rows_of(store);
    let date_rows = date_rows_of(store);
    proof {
        lemma_rows_total(store.deep_view());
    }
    compute_stats(&page_rows, &date_rows, today)
}

/// One more stored event adds one row to each list of rows.
pub proof fn lemma_rows_push(store: Seq<StoredEventView>, event: StoredEventView)
    ensures
        page_rows(store.push(event)) == page_rows(store).push(page_row(event)),
        date_rows(store.push(event)) == date_rows(store).push(date_row(event)),
{
    assert(page_rows(store.push(event)) =~= page_rows(store).push(page_row(event)));
    assert(date_rows(store.push(event)) =~= date_rows(store).push(date_row(event)));
}

/// One more stored event raises the count of its page by one and leaves the
/// count of every other page as it was.
pub proof fn lemma_store_counts_page(
    store: Seq<StoredEventView>,
    event: StoredEventView,
    page: Seq<char>,
)
    ensures
        page_total(page_rows(store.push(event)), page) == page_total(page_rows(store), page) + if
            event.page == page {
            1int
        } else {
            0int
        },
{
    lemma_rows_push(store, event);
    lemma_page_total_push(page_rows(store), page_row(event), page);
}

/// The three pages that are counted differ from one another.
pub proof fn lemma_pages_differ()
    ensures
        daily_page() != training_page(),
        daily_page() != numbers_page(),
        training_page() != numbers_page(),
{
    reveal_strlit("daily");
    reveal_strlit("training");
    reveal_strlit("numbers");
    assert(daily_page().len() == 5);
    assert(training_page().len() == 8);
    assert(numbers_page().len() == 7);
}

/// A stored event of the page `daily` raises `daily_count` by exactly one and
/// leaves `training_count` and `numbers_count` as they were; likewise for the
/// pages `training` and `numbers`. An event of any other page leaves all
/// three as they were.
pub proof fn lemma_event_counts_for_its_page(
    store: Seq<StoredEventView>,
    event: StoredEventView,
    today: int,
)
    ensures
        ({
            let before = store_stats(store, today);
            let after = store_stats(store.push(event), today);
            &&& after.daily_count == before.daily_count + if event.page == daily_page() {
                1int
            } else {
                0int
            }
            &&& after.training_count == before.training_count + if event.page == training_page() {
                1int
            } else {
                0int
            }
            &&& after.numbers_count == before.numbers_count + if event.page == numbers_page() {
                1int
            } else {
                0int
            }
            &&& event.page == daily_page() ==> after.training_count == before.training_count
                && after.numbers_count == before.numbers_count
        }),
{
    lemma_pages_differ();
    lemma_store_counts_page(store, event, daily_page());
    lemma_store_counts_page(store, event, training_page());
    lemma_store_counts_page(store, event, numbers_page());
}

/// One more stored event raises the bucket of its day by one, where its day
/// lies in the window, and leaves every other bucket as it was.
pub proof fn lemma_event_counts_for_its_day(
    store: Seq<StoredEventView>,
    event: StoredEventView,
    today: int,
)
    ensures
        ({
            let before = store_stats(store, today).page_events_per_day;
            let after = store_stats(store.push(event), today).page_events_per_day;
            after == match event_bucket(event, today) {
                Some(bucket) => before.update(bucket, before[bucket] + 1),
                None => before,
            }
        }),
{
    let before = store_stats(store, today).page_events_per_day;
    let after = store_stats(store.push(event), today).page_events_per_day;
    let expected = match event_bucket(event, today) {
        Some(bucket) => before.update(bucket, before[bucket] + 1),
        None => before,
    };
    lemma_rows_push(store, event);
    assert forall|k: int| 0 <= k < WINDOW_DAYS implies after[k] == expected[k] by {
        lemma_bucket_total_push(date_rows(store), date_row(event), today, k);
    }
    assert(after =~= expected);
}

/// An event of the day 29 days before today raises bucket 29 by one; an
/// event of the day 30 days before today, or of an earlier day, and an event
/// of a day after today leave the histogram as it was.
pub proof fn lemma_histogram_bounds(
    store: Seq<StoredEventView>,
    event: StoredEventView,
    today: int,
    day: i32,
)
    requires
        day_of_text(date_prefix(event.timestamp), date_format()) == Some(day),
    ensures
        ({
            let before = store_stats(store, today).page_events_per_day;
            let after = store_stats(store.push(event), today).page_events_per_day;
            &&& today - day == 29 ==> after == before.update(29, before[29] + 1)
            &&& today - day >= 30 ==> after == before
            &&& today - day < 0 ==> after == before
            &&& 0 <= today - day < 30 ==> after == before.update(
                today - day,
                before[today - day] + 1,
            )
        }),
{
    lemma_event_counts_for_its_day(store, event, today);
}

/// Two events whose timestamps start with the same date count for the same
/// bucket, whatever follows the date.
pub proof fn lemma_same_date_same_bucket(
    store: Seq<StoredEventView>,
    first: StoredEventView,
    second: StoredEventView,
    today: int,
)
    requires
        date_prefix(first.timestamp) == date_prefix(second.timestamp),
    ensures
        event_bucket(first, today) == event_bucket(second, today),
        ({
            let before = store_stats(store, today).page_events_per_day;
            let after = store_stats(store.push(first).push(second), today).page_events_per_day;
            after == match event_bucket(first, today) {
                Some(bucket) => before.update(bucket, before[bucket] + 2),
                None => before,
            }
        }),
{
    let before = store_stats(store, today).page_events_per_day;
    let between = store_stats(store.push(first), today).page_events_per_day;
    let after = store_stats(store.push(first).push(second), today).page_events_per_day;
    lemma_event_counts_for_its_day(store, first, today);
    lemma_event_counts_for_its_day(store.push(first), second, today);
    match event_bucket(first, today) {
        Some(bucket) => {
            assert(after =~= before.update(bucket, before[bucket] + 2));
        },
        None => {},
    }
}

/// `pages` and `dates` are what grouped queries over the stored events
/// return: for every page, `pages` hold as many events as are stored with
/// that page, and for every date text, `dates` hold as many events as are
/// stored with a timestamp that starts with it.
pub open spec fn grouped_from(
    pages: Seq<PageCountView>,
    dates: Seq<DateCountView>,
    store: Seq<StoredEventView>,
) -> bool {
    &&& forall|page: Seq<char>| #[trigger]
        page_total(pages, page) == page_total(page_rows(store), page)
    &&& forall|date: Option<Seq<char>>| #[trigger]
        date_total(dates, date) == date_total(date_rows(store), date)
}

/// The statistics of grouped rows are those of one pass over the stored
/// events.
pub proof fn lemma_grouped_rows_give_store_stats(
    pages: Seq<PageCountView>,
    dates: Seq<DateCountView>,
    store: Seq<StoredEventView>,
    today: int,
)
    requires
        grouped_from(pages, dates, store),
    ensures
        stats_of(pages, dates, today) == store_stats(store, today),
{
    lemma_stats_of_grouping(pages, page_rows(store), dates, date_rows(store), today);
}

} // verus!
