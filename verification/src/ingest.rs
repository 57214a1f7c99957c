//! Ingestion: what to store for a submitted event.
//!
//! The handler of a submission decides here and acts elsewhere: it gets
//! either the one row to append to the store or the answer with which to
//! turn the submission down, and after an insert it maps the outcome of the
//! store to the answer.

use vstd::prelude::*;
use crate::api::{
    decode_page_event, encode_event, validation_message, PageEvent, PageEventView,
    ValidationError,
};
use crate::calendar::{clock_reading, utc_now, LAST_FOUR_DIGIT_DAY};
use crate::json::{Json, JsonView};
use crate::json_text::{json_error_message, json_of_text, text_of_json, JsonError};
use crate::response::{ok_response, storage_failure, Status};
use crate::stats::{daily_page, numbers_page, training_page};
use crate::store::{
    event_bucket, lemma_event_counts_for_its_day, lemma_event_counts_for_its_page, store_stats,
    StoredEvent, StoredEventView,
};

verus! {

/// What the handler is to do with a submission.
#[derive(Debug, Clone, PartialEq, Eq)]
pub enum Submission {
    /// Append this row to the store.
    Insert(StoredEvent),
    /// Store nothing, and answer with this status and message.
    Reject(Status, String),
}

/// `Submission` as mathematical values.
pub enum SubmissionView {
    Insert(StoredEventView),
    Reject(Status, Seq<char>),
}

impl DeepView for Submission {
    type V = SubmissionView;

    open spec fn deep_view(&self) -> SubmissionView {
        match self {
            Submission::Insert(row) => SubmissionView::Insert(row.deep_view()),
            Submission::Reject(status, message) => SubmissionView::Reject(*status, message@),
        }
    }
}

/// The row that stores `event`: its page and identifier, its details as the
/// given text, and the given timestamp.
pub open spec fn stored_row(event: PageEventView, details: Seq<char>, timestamp: Seq<char>)
    -> StoredEventView {
    StoredEventView { page: event.page, uuid: event.uuid, details, timestamp }
}

/// The details of `event` as they are stored: the JSON text of the event,
/// without the page and the identifier around it.
pub open spec fn details_text(event: PageEventView) -> Seq<char> {
    text_of_json(encode_event(event.event))
}

/// What to do with `event` once its details were written, or could not be.
pub open spec fn decision(
    event: PageEventView,
    details: Result<String, JsonError>,
    timestamp: Seq<char>,
) -> SubmissionView {
    match details {
        Ok(text) => SubmissionView::Insert(stored_row(event, text@, timestamp)),
        Err(error) => SubmissionView::Reject(Status::BadRequest, json_error_message(error)),
    }
}

/// Decides what to do with `event` from the outcome of writing its details:
/// where they were written, the row with them is to be inserted; where they
/// were not, the submission is turned down as a bad request with the message
/// of the failure.
pub fn decide(
    event: &PageEvent,
    details: Result<String, JsonError>,
    timestamp: String,
) -> (action: Submission)
    ensures
        action.deep_view() == decision(event.deep_view(), details, timestamp@),
{
    match details {
        Ok(text) => Submission::Insert(
            StoredEvent {
                page: event.page.clone(),
                uuid: event.uuid.clone(),
                details: text,
                timestamp,
            },
        ),
        Err(error) => Submission::Reject(Status::BadRequest, error.message()),
    }
}

/// What to do with a submitted event: insert the row that holds its page,
/// its identifier, its details as JSON text and the timestamp.
pub open spec fn submission_of(event: PageEventView, timestamp: Seq<char>) -> SubmissionView {
    SubmissionView::Insert(stored_row(event, details_text(event), timestamp))
}

/// What to do with a JSON value that was submitted: insert the row of the
/// event that it holds, or turn it down as a bad request with the first
/// thing that is wrong with it.
pub open spec fn acceptance(json: JsonView, timestamp: Seq<char>) -> SubmissionView {
    match decode_page_event(json) {
        Ok(event) => submission_of(event, timestamp),
        Err(error) => SubmissionView::Reject(Status::BadRequest, validation_message(error)),
    }
}

/// Writes the details of `event` as JSON text and returns the row to insert.
/// Every event is stored: its details can always be written.
pub fn submit(event: &PageEvent, timestamp: String) -> (action: Submission)
    ensures
        action.deep_view() == submission_of(event.deep_view(), timestamp@),
{
    let details = event.event.encode().to_text();
    decide(event, details, timestamp)
}

/// As `submit`, with the time of the machine's clock as the timestamp: the
/// row to insert holds a timestamp that the clock gave.
pub fn submit_now(event: &PageEvent) -> (action: Submission)
    ensures
        exists|timestamp: Seq<char>, today: i32|
            clock_reading(timestamp, today) && action.deep_view() == submission_of(
                event.deep_view(),
                timestamp,
            ),
{
    let now = utc_now();
    let ghost today = now.1;
    let ghost timestamp = now.0@;
    let action = submit(event, now.0);
    proof {
        assert(clock_reading(timestamp, today) && action.deep_view() == submission_of(
            event.deep_view(),
            timestamp,
        ));
    }
    action
}

/// Turns a submission down as a bad request because the JSON value in it is
/// no event.
pub fn reject_invalid(error: ValidationError) -> (action: Submission)
    ensures
        action.deep_view() == SubmissionView::Reject(Status::BadRequest, validation_message(error)),
{
    Submission::Reject(Status::BadRequest, error.message())
}

/// Reads the event out of a JSON value and decides what to do with it: the
/// row of a well-formed event is to be inserted, and a value that is no
/// event is turned down as a bad request, with the first thing that is wrong
/// with it as the message.
pub fn accept(json: &Json, timestamp: String) -> (action: Submission)
    ensures
        action.deep_view() == acceptance(json.deep_view(), timestamp@),
{
    match PageEvent::decode(json) {
        Ok(event) => submit(&event, timestamp),
        Err(error) => reject_invalid(error),
    }
}

/// Reads the body of a submission and decides what to do with it. A body
/// that is no JSON document, or whose JSON value is no event, is turned down
/// as a bad request and nothing is stored; the row of any other body is to
/// be inserted.
pub fn receive(body: &str, timestamp: String) -> (action: Submission)
    ensures
        match json_of_text(body@) {
            Some(json) => action.deep_view() == acceptance(json, timestamp@),
            None => action matches Submission::Reject(status, _) && status == Status::BadRequest,
        },
{
    match Json::from_text(body) {
        Ok(json) => accept(&json, timestamp),
        Err(error) => Submission::Reject(Status::BadRequest, error.message()),
    }
}

/// As `receive`, with the time of the machine's clock as the timestamp.
pub fn receive_now(body: &str) -> (action: Submission)
    ensures
        match json_of_text(body@) {
            Some(json) => exists|timestamp: Seq<char>, today: i32|
                clock_reading(timestamp, today) && action.deep_view() == acceptance(
                    json,
                    timestamp,
                ),
            None => action matches Submission::Reject(status, _) && status == Status::BadRequest,
        },
{
    let now = utc_now();
    let ghost today = now.1;
    let ghost timestamp = now.0@;
    let action = receive(body, now.0);
    proof {
        if let Some(json) = json_of_text(body@) {
            assert(clock_reading(timestamp, today) && action.deep_view() == acceptance(
                json,
                timestamp,
            ));
        }
    }
    action
}

/// The answer to a submission after the insert: `200 OK` where the store
/// took the row, status 500 with the cause where it did not.
pub fn insert_outcome(inserted: Result<(), String>) -> (response: (Status, String))
    ensures
        match inserted {
            Ok(_) => response.0 == Status::Success && response.1@ == "OK"@,
            Err(cause) => response.0 == Status::InternalServerError && response.1@ == cause@,
        },
{
    match inserted {
        Ok(_) => ok_response(),
        Err(cause) => storage_failure(cause),
    }
}

/// The row of an event of the page `daily` raises `daily_count` by exactly
/// one and leaves `training_count` and `numbers_count` as they were, and
/// likewise for the pages `training` and `numbers`. Whatever the page, the
/// row raises the bucket of the day of its timestamp by one, where that day
/// lies in the window, and no other bucket.
pub proof fn lemma_ingested_event_is_counted(
    store: Seq<StoredEventView>,
    event: PageEventView,
    details: Seq<char>,
    timestamp: Seq<char>,
    today: int,
)
    ensures
        ({
            let row = stored_row(event, details, timestamp);
            let before = store_stats(store, today);
            let after = store_stats(store.push(row), today);
            &&& event.page == daily_page() ==> after.daily_count == before.daily_count + 1
                && after.training_count == before.training_count && after.numbers_count
                == before.numbers_count
            &&& event.page == training_page() ==> after.daily_count == before.daily_count
                && after.training_count == before.training_count + 1 && after.numbers_count
                == before.numbers_count
            &&& event.page == numbers_page() ==> after.daily_count == before.daily_count
                && after.training_count == before.training_count && after.numbers_count
                == before.numbers_count + 1
            &&& event.page != daily_page() && event.page != training_page() && event.page
                != numbers_page() ==> after.daily_count == before.daily_count
                && after.training_count == before.training_count && after.numbers_count
                == before.numbers_count
            &&& after.page_events_per_day == match event_bucket(row, today) {
                Some(bucket) => before.page_events_per_day.update(
                    bucket,
                    before.page_events_per_day[bucket] + 1,
                ),
                None => before.page_events_per_day,
            }
        }),
{
    let row = stored_row(event, details, timestamp);
    lemma_event_counts_for_its_page(store, row, today);
    lemma_event_counts_for_its_day(store, row, today);
    crate::store::lemma_pages_differ();
}

/// An event that is stored and counted on one day: where the timestamp of
/// its row was read off the clock on the day `today`, in a year up to 9999,
/// the row raises bucket 0 of the histogram as seen from `today` by one and
/// leaves the other buckets as they were. An event of the page `numbers`
/// raises `numbers_count` by one, and likewise for the other two pages.
pub proof fn lemma_event_of_today_is_in_bucket_zero(
    store: Seq<StoredEventView>,
    event: PageEventView,
    details: Seq<char>,
    timestamp: Seq<char>,
    today: i32,
)
    requires
        clock_reading(timestamp, today),
        today <= LAST_FOUR_DIGIT_DAY,
    ensures
        ({
            let row = stored_row(event, details, timestamp);
            let before = store_stats(store, today as int);
            let after = store_stats(store.push(row), today as int);
            &&& after.page_events_per_day == before.page_events_per_day.update(
                0,
                before.page_events_per_day[0] + 1,
            )
            &&& after.daily_count == before.daily_count + if event.page == daily_page() {
                1int
            } else {
                0int
            }
            &&& after.training_count == before.training_count + if event.page == training_page() {
                1int
            } else {
                0int
            }
            &&& after.numbers_count == before.numbers_count + if event.page == numbers_page() {
                1int
            } else {
                0int
            }
        }),
{
    let row = stored_row(event, details, timestamp);
    lemma_event_counts_for_its_page(store, row, today as int);
    lemma_event_counts_for_its_day(store, row, today as int);
}

} // verus!
