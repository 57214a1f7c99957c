//! The events that the client submits, and their JSON form.
//!
//! An event carries no tag that says which of the four kinds it is: the kind
//! is read off the members that the JSON object has. The kinds are tried in a
//! fixed order (daily, training finished, training round, numbers round),
//! and the first one whose members are all present with the right types
//! wins. Members that the kind does not know are ignored.

use vstd::prelude::*;
use crate::json::{
    all_text, bool_member, i32_member, i64_member, lemma_member_ignores_other_keys, member,
    member_from, text_list, text_list_member, text_member, texts, Json, JsonView,
};
use crate::json_text::{
    distinct_keys, lemma_writable_array, lemma_writable_object, writable,
};

verus! {

/// The outcome of a daily puzzle.
#[derive(Debug, Clone, PartialEq, Eq)]
pub struct DailyEvent {
    pub dicts_active: Vec<String>,
    pub progress: String,
    pub result: String,
    pub attempts: i32,
    pub mistakes: i32,
    pub rata: i32,
}

/// `DailyEvent` as mathematical values.
pub struct DailyEventView {
    pub dicts_active: Seq<Seq<char>>,
    pub progress: Seq<char>,
    pub result: Seq<char>,
    pub attempts: i32,
    pub mistakes: i32,
    pub rata: i32,
}

impl DeepView for DailyEvent {
    type V = DailyEventView;

    open spec fn deep_view(&self) -> DailyEventView {
        DailyEventView {
            dicts_active: self.dicts_active.deep_view(),
            progress: self.progress@,
            result: self.result@,
            attempts: self.attempts,
            mistakes: self.mistakes,
            rata: self.rata,
        }
    }
}

/// The summary of a finished training session.
#[derive(Debug, Clone, PartialEq, Eq)]
pub struct TrainingFinishedEvent {
    pub dicts_active: Vec<String>,
    pub attempts: i32,
    pub correct: i32,
    pub retries: i32,
}

/// `TrainingFinishedEvent` as mathematical values.
pub struct TrainingFinishedEventView {
    pub dicts_active: Seq<Seq<char>>,
    pub attempts: i32,
    pub correct: i32,
    pub retries: i32,
}

impl DeepView for TrainingFinishedEvent {
    type V = TrainingFinishedEventView;

    open spec fn deep_view(&self) -> TrainingFinishedEventView {
        TrainingFinishedEventView {
            dicts_active: self.dicts_active.deep_view(),
            attempts: self.attempts,
            correct: self.correct,
            retries: self.retries,
        }
    }
}

/// One round of a training session.
#[derive(Debug, Clone, PartialEq, Eq)]
pub struct TrainingRoundEvent {
    pub dicts_active: Vec<String>,
    pub nr_words_found: i32,
    pub success: bool,
    pub mistakes: i32,
}

/// `TrainingRoundEvent` as mathematical values.
pub struct TrainingRoundEventView {
    pub dicts_active: Seq<Seq<char>>,
    pub nr_words_found: i32,
    pub success: bool,
    pub mistakes: i32,
}

impl DeepView for TrainingRoundEvent {
    type V = TrainingRoundEventView;

    open spec fn deep_view(&self) -> TrainingRoundEventView {
        TrainingRoundEventView {
            dicts_active: self.dicts_active.deep_view(),
            nr_words_found: self.nr_words_found,
            success: self.success,
            mistakes: self.mistakes,
        }
    }
}

/// One round of the numbers game.
#[derive(Debug, Clone, PartialEq, Eq)]
pub struct NumbersRoundEvent {
    pub mode: String,
    pub number: i64,
}

/// `NumbersRoundEvent` as mathematical values.
pub struct NumbersRoundEventView {
    pub mode: Seq<char>,
    pub number: i64,
}

impl DeepView for NumbersRoundEvent {
    type V = NumbersRoundEventView;

    open spec fn deep_view(&self) -> NumbersRoundEventView {
        NumbersRoundEventView { mode: self.mode@, number: self.number }
    }
}

/// What happened on a page.
#[derive(Debug, Clone, PartialEq, Eq)]
pub enum Event {
    Daily(DailyEvent),
    TrainingFinished(TrainingFinishedEvent),
    TrainingRound(TrainingRoundEvent),
    NumbersRound(NumbersRoundEvent),
}

/// `Event` as mathematical values.
pub enum EventView {
    Daily(DailyEventView),
    TrainingFinished(TrainingFinishedEventView),
    TrainingRound(TrainingRoundEventView),
    NumbersRound(NumbersRoundEventView),
}

impl DeepView for Event {
    type V = EventView;

    open spec fn deep_view(&self) -> EventView {
        match self {
            Event::Daily(e) => EventView::Daily(e.deep_view()),
            Event::TrainingFinished(e) => EventView::TrainingFinished(e.deep_view()),
            Event::TrainingRound(e) => EventView::TrainingRound(e.deep_view()),
            Event::NumbersRound(e) => EventView::NumbersRound(e.deep_view()),
        }
    }
}

/// An event as the client submits it: the page it happened on, the client's
/// identifier, and under `details` the event itself.
#[derive(Debug, Clone, PartialEq, Eq)]
pub struct PageEvent {
    pub page: String,
    pub uuid: String,
    pub event: Event,
}

/// `PageEvent` as mathematical values.
pub struct PageEventView {
    pub page: Seq<char>,
    pub uuid: Seq<char>,
    pub event: EventView,
}

impl DeepView for PageEvent {
    type V = PageEventView;

    open spec fn deep_view(&self) -> PageEventView {
        PageEventView { page: self.page@, uuid: self.uuid@, event: self.event.deep_view() }
    }
}

/// Why a JSON value is no submitted event.
#[derive(Debug, Clone, Copy, PartialEq, Eq)]
pub enum ValidationError {
    /// The value is no object with a string under `page`.
    MissingPage,
    /// There is no string under `uuid`.
    MissingUuid,
    /// There is no member `details`.
    MissingDetails,
    /// The value under `details` has the members of none of the four kinds of
    /// event.
    UnknownEvent,
}

/// What is wrong with the value, in words.
pub open spec fn validation_message(error: ValidationError) -> Seq<char> {
    match error {
        ValidationError::MissingPage => "missing string `page`"@,
        ValidationError::MissingUuid => "missing string `uuid`"@,
        ValidationError::MissingDetails => "missing member `details`"@,
        ValidationError::UnknownEvent => "`details` did not match any kind of event"@,
    }
}

impl ValidationError {
    /// The message of the error.
    pub fn message(&self) -> (text: String)
        ensures
            text@ == validation_message(*self),
    {
        match self {
            ValidationError::MissingPage => "missing string `page`".to_owned(),
            ValidationError::MissingUuid => "missing string `uuid`".to_owned(),
            ValidationError::MissingDetails => "missing member `details`".to_owned(),
            ValidationError::UnknownEvent => "`details` did not match any kind of event".to_owned(),
        }
    }
}

/// A 32-bit integer as a JSON value.
pub open spec fn int32(i: i32) -> JsonView {
    JsonView::Int(i as i64)
}

/// The JSON form of a daily event.
pub open spec fn encode_daily(e: DailyEventView) -> JsonView {
    JsonView::Object(
        seq![
            ("dicts-active"@, text_list(e.dicts_active)),
            ("progress"@, JsonView::Str(e.progress)),
            ("result"@, JsonView::Str(e.result)),
            ("attempts"@, int32(e.attempts)),
            ("mistakes"@, int32(e.mistakes)),
            ("rata"@, int32(e.rata)),
        ],
    )
}

/// The daily event that `json` holds, where it has the members of one.
pub open spec fn decode_daily(json: JsonView) -> Option<DailyEventView> {
    match (
        text_list_member(json, "dicts-active"@),
        text_member(json, "progress"@),
        text_member(json, "result"@),
        i32_member(json, "attempts"@),
        i32_member(json, "mistakes"@),
        i32_member(json, "rata"@),
    ) {
        (
            Some(dicts_active),
            Some(progress),
            Some(result),
            Some(attempts),
            Some(mistakes),
            Some(rata),
        ) => Some(DailyEventView { dicts_active, progress, result, attempts, mistakes, rata }),
        _ => None,
    }
}

/// The JSON form of a finished training session.
pub open spec fn encode_training_finished(e: TrainingFinishedEventView) -> JsonView {
    JsonView::Object(
        seq![
            ("dicts-active"@, text_list(e.dicts_active)),
            ("attempts"@, int32(e.attempts)),
            ("correct"@, int32(e.correct)),
            ("retries"@, int32(e.retries)),
        ],
    )
}

/// The finished training session that `json` holds, where it has the members
/// of one.
pub open spec fn decode_training_finished(json: JsonView) -> Option<TrainingFinishedEventView> {
    match (
        text_list_member(json, "dicts-active"@),
        i32_member(json, "attempts"@),
        i32_member(json, "correct"@),
        i32_member(json, "retries"@),
    ) {
        (Some(dicts_active), Some(attempts), Some(correct), Some(retries)) => Some(
            TrainingFinishedEventView { dicts_active, attempts, correct, retries },
        ),
        _ => None,
    }
}

/// The JSON form of a training round.
pub open spec fn encode_training_round(e: TrainingRoundEventView) -> JsonView {
    JsonView::Object(
        seq![
            ("dicts-active"@, text_list(e.dicts_active)),
            ("nr-words-found"@, int32(e.nr_words_found)),
            ("success"@, JsonView::Bool(e.success)),
            ("mistakes"@, int32(e.mistakes)),
        ],
    )
}

/// The training round that `json` holds, where it has the members of one.
pub open spec fn decode_training_round(json: JsonView) -> Option<TrainingRoundEventView> {
    match (
        text_list_member(json, "dicts-active"@),
        i32_member(json, "nr-words-found"@),
        bool_member(json, "success"@),
        i32_member(json, "mistakes"@),
    ) {
        (Some(dicts_active), Some(nr_words_found), Some(success), Some(mistakes)) => Some(
            TrainingRoundEventView { dicts_active, nr_words_found, success, mistakes },
        ),
        _ => None,
    }
}

/// The JSON form of a numbers round.
pub open spec fn encode_numbers_round(e: NumbersRoundEventView) -> JsonView {
    JsonView::Object(seq![("mode"@, JsonView::Str(e.mode)), ("number"@, JsonView::Int(e.number))])
}

/// The numbers round that `json` holds, where it has the members of one.
pub open spec fn decode_numbers_round(json: JsonView) -> Option<NumbersRoundEventView> {
    match (text_member(json, "mode"@), i64_member(json, "number"@)) {
        (Some(mode), Some(number)) => Some(NumbersRoundEventView { mode, number }),
        _ => None,
    }
}

/// The JSON form of an event: that of its kind.
pub open spec fn encode_event(event: EventView) -> JsonView {
    match event {
        EventView::Daily(e) => encode_daily(e),
        EventView::TrainingFinished(e) => encode_training_finished(e),
        EventView::TrainingRound(e) => encode_training_round(e),
        EventView::NumbersRound(e) => encode_numbers_round(e),
    }
}

/// The event that `json` holds: the first of the four kinds, in their fixed
/// order, whose members `json` has.
pub open spec fn decode_event(json: JsonView) -> Option<EventView> {
    if let Some(e) = decode_daily(json) {
        Some(EventView::Daily(e))
    } else if let Some(e) = decode_training_finished(json) {
        Some(EventView::TrainingFinished(e))
    } else if let Some(e) = decode_training_round(json) {
        Some(EventView::TrainingRound(e))
    } else if let Some(e) = decode_numbers_round(json) {
        Some(EventView::NumbersRound(e))
    } else {
        None
    }
}

/// The JSON form of a submitted event.
pub open spec fn encode_page_event(e: PageEventView) -> JsonView {
    JsonView::Object(
        seq![
            ("page"@, JsonView::Str(e.page)),
            ("uuid"@, JsonView::Str(e.uuid)),
            ("details"@, encode_event(e.event)),
        ],
    )
}

/// The submitted event that `json` holds, or the first thing that is wrong
/// with it.
pub open spec fn decode_page_event(json: JsonView) -> Result<PageEventView, ValidationError> {
    match text_member(json, "page"@) {
        None => Err(ValidationError::MissingPage),
        Some(page) => match text_member(json, "uuid"@) {
            None => Err(ValidationError::MissingUuid),
            Some(uuid) => match member(json, "details"@) {
                None => Err(ValidationError::MissingDetails),
                Some(details) => match decode_event(details) {
                    None => Err(ValidationError::UnknownEvent),
                    Some(event) => Ok(PageEventView { page, uuid, event }),
                },
            },
        },
    }
}

impl DailyEvent {
    /// Writes the event as a JSON object.
    pub fn encode(&self) -> (json: Json)
        ensures
            json.deep_view() == encode_daily(self.deep_view()),
    {
        let mut members: Vec<(String, Json)> = Vec::new();
        members.push(Json::member("dicts-active", Json::text_list(&self.dicts_active)));
        members.push(Json::member("progress", Json::text(self.progress.as_str())));
        members.push(Json::member("result", Json::text(self.result.as_str())));
        members.push(Json::member("attempts", Json::integer(self.attempts as i64)));
        members.push(Json::member("mistakes", Json::integer(self.mistakes as i64)));
        members.push(Json::member("rata", Json::integer(self.rata as i64)));
        proof {
            assert(members.deep_view() =~= encode_daily(self.deep_view())->Object_0);
        }
        Json::object(members)
    }

    /// Reads a daily event from a JSON value that has the members of one.
    pub fn decode(json: &Json) -> (event: Option<DailyEvent>)
        ensures
            event.deep_view() == decode_daily(json.deep_view()),
    {
        let dicts_active = json.text_list_member("dicts-active")?;
        let progress = json.text_member("progress")?;
        let result = json.text_member("result")?;
        let attempts = json.i32_member("attempts")?;
        let mistakes = json.i32_member("mistakes")?;
        let rata = json.i32_member("rata")?;
        Some(DailyEvent { dicts_active, progress, result, attempts, mistakes, rata })
    }
}

impl TrainingFinishedEvent {
    /// Writes the event as a JSON object.
    pub fn encode(&self) -> (json: Json)
        ensures
            json.deep_view() == encode_training_finished(self.deep_view()),
    {
        let mut members: Vec<(String, Json)> = Vec::new();
        members.push(Json::member("dicts-active", Json::text_list(&self.dicts_active)));
        members.push(Json::member("attempts", Json::integer(self.attempts as i64)));
        members.push(Json::member("correct", Json::integer(self.correct as i64)));
        members.push(Json::member("retries", Json::integer(self.retries as i64)));
        proof {
            assert(members.deep_view() =~= encode_training_finished(self.deep_view())->Object_0);
        }
        Json::object(members)
    }

    /// Reads a finished training session from a JSON value that has the
    /// members of one.
    pub fn decode(json: &Json) -> (event: Option<TrainingFinishedEvent>)
        ensures
            event.deep_view() == decode_training_finished(json.deep_view()),
    {
        let dicts_active = json.text_list_member("dicts-active")?;
        let attempts = json.i32_member("attempts")?;
        let correct = json.i32_member("correct")?;
        let retries = json.i32_member("retries")?;
        Some(TrainingFinishedEvent { dicts_active, attempts, correct, retries })
    }
}

impl TrainingRoundEvent {
    /// Writes the event as a JSON object.
    pub fn encode(&self) -> (json: Json)
        ensures
            json.deep_view() == encode_training_round(self.deep_view()),
    {
        let mut members: Vec<(String, Json)> = Vec::new();
        members.push(Json::member("dicts-active", Json::text_list(&self.dicts_active)));
        members.push(Json::member("nr-words-found", Json::integer(self.nr_words_found as i64)));
        members.push(Json::member("success", Json::boolean(self.success)));
        members.push(Json::member("mistakes", Json::integer(self.mistakes as i64)));
        proof {
            assert(members.deep_view() =~= encode_training_round(self.deep_view())->Object_0);
        }
        Json::object(members)
    }

    /// Reads a training round from a JSON value that has the members of one.
    pub fn decode(json: &Json) -> (event: Option<TrainingRoundEvent>)
        ensures
            event.deep_view() == decode_training_round(json.deep_view()),
    {
        let dicts_active = json.text_list_member("dicts-active")?;
        let nr_words_found = json.i32_member("nr-words-found")?;
        let success = json.bool_member("success")?;
        let mistakes = json.i32_member("mistakes")?;
        Some(TrainingRoundEvent { dicts_active, nr_words_found, success, mistakes })
    }
}

impl NumbersRoundEvent {
    /// Writes the event as a JSON object.
    pub fn encode(&self) -> (json: Json)
        ensures
            json.deep_view() == encode_numbers_round(self.deep_view()),
    {
        let mut members: Vec<(String, Json)> = Vec::new();
        members.push(Json::member("mode", Json::text(self.mode.as_str())));
        members.push(Json::member("number", Json::integer(self.number)));
        proof {
            assert(members.deep_view() =~= encode_numbers_round(self.deep_view())->Object_0);
        }
        Json::object(members)
    }

    /// Reads a numbers round from a JSON value that has the members of one.
    pub fn decode(json: &Json) -> (event: Option<NumbersRoundEvent>)
        ensures
            event.deep_view() == decode_numbers_round(json.deep_view()),
    {
        let mode = json.text_member("mode")?;
        let number = json.i64_member("number")?;
        Some(NumbersRoundEvent { mode, number })
    }
}

impl Event {
    /// Writes the event as a JSON object, without a tag for its kind. The
    /// object can be written as text, and is read back as this event.
    pub fn encode(&self) -> (json: Json)
        ensures
            json.deep_view() == encode_event(self.deep_view()),
            writable(json.deep_view()),
            decode_event(json.deep_view()) == Some(self.deep_view()),
    {
        proof {
            lemma_encoded_event_writable(self.deep_view());
            lemma_event_round_trip(self.deep_view());
        }
        match self {
            Event::Daily(e) => e.encode(),
            Event::TrainingFinished(e) => e.encode(),
            Event::TrainingRound(e) => e.encode(),
            Event::NumbersRound(e) => e.encode(),
        }
    }

    /// Reads an event: tries the four kinds in their fixed order and returns
    /// the first that the members of `json` fit, or `None` where none fits.
    pub fn decode(json: &Json) -> (event: Option<Event>)
        ensures
            event.deep_view() == decode_event(json.deep_view()),
    {
        if let Some(e) = DailyEvent::decode(json) {
            Some(Event::Daily(e))
        } else if let Some(e) = TrainingFinishedEvent::decode(json) {
            Some(Event::TrainingFinished(e))
        } else if let Some(e) = TrainingRoundEvent::decode(json) {
            Some(Event::TrainingRound(e))
        } else if let Some(e) = NumbersRoundEvent::decode(json) {
            Some(Event::NumbersRound(e))
        } else {
            None
        }
    }
}

impl PageEvent {
    /// Writes the submitted event as a JSON object with the members `page`,
    /// `uuid` and `details`. The object can be written as text, and is read
    /// back as this event.
    pub fn encode(&self) -> (json: Json)
        ensures
            json.deep_view() == encode_page_event(self.deep_view()),
            writable(json.deep_view()),
            decode_page_event(json.deep_view()) == Ok::<PageEventView, ValidationError>(
                self.deep_view(),
            ),
    {
        proof {
            lemma_encoded_page_event_writable(self.deep_view());
            lemma_page_event_round_trip(self.deep_view());
        }
        let mut members: Vec<(String, Json)> = Vec::new();
        members.push(Json::member("page", Json::text(self.page.as_str())));
        members.push(Json::member("uuid", Json::text(self.uuid.as_str())));
        members.push(Json::member("details", self.event.encode()));
        proof {
            assert(members.deep_view() =~= encode_page_event(self.deep_view())->Object_0);
        }
        Json::object(members)
    }

    /// Reads a submitted event. `page` and `uuid` must be strings and
    /// `details` one of the four kinds of event; the error names the first of
    /// them that is not.
    pub fn decode(json: &Json) -> (event: Result<PageEvent, ValidationError>)
        ensures
            match decode_page_event(json.deep_view()) {
                Ok(view) => event matches Ok(e) && e.deep_view() == view,
                Err(error) => event matches Err(e) && e == error,
            },
    {
        let page = match json.text_member("page") {
            Some(page) => page,
            None => { return Err(ValidationError::MissingPage); },
        };
        let uuid = match json.text_member("uuid") {
            Some(uuid) => uuid,
            None => { return Err(ValidationError::MissingUuid); },
        };
        let details = match json.get("details") {
            Some(details) => details,
            None => { return Err(ValidationError::MissingDetails); },
        };
        match Event::decode(details) {
            Some(event) => Ok(PageEvent { page, uuid, event }),
            None => Err(ValidationError::UnknownEvent),
        }
    }
}

/// The keys of the members differ in their length or their first character.
proof fn lemma_keys()
    ensures
        "dicts-active"@.len() == 12 && "dicts-active"@[0] == 'd',
        "progress"@.len() == 8 && "progress"@[0] == 'p',
        "result"@.len() == 6 && "result"@[0] == 'r',
        "attempts"@.len() == 8 && "attempts"@[0] == 'a',
        "mistakes"@.len() == 8 && "mistakes"@[0] == 'm',
        "rata"@.len() == 4 && "rata"@[0] == 'r',
        "correct"@.len() == 7 && "correct"@[0] == 'c',
        "retries"@.len() == 7 && "retries"@[0] == 'r',
        "nr-words-found"@.len() == 14 && "nr-words-found"@[0] == 'n',
        "success"@.len() == 7 && "success"@[0] == 's',
        "mode"@.len() == 4 && "mode"@[0] == 'm',
        "number"@.len() == 6 && "number"@[0] == 'n',
        "page"@.len() == 4 && "page"@[0] == 'p',
        "uuid"@.len() == 4 && "uuid"@[0] == 'u',
        "details"@.len() == 7 && "details"@[0] == 'd',
{
    reveal_strlit("dicts-active");
    reveal_strlit("progress");
    reveal_strlit("result");
    reveal_strlit("attempts");
    reveal_strlit("mistakes");
    reveal_strlit("rata");
    reveal_strlit("correct");
    reveal_strlit("retries");
    reveal_strlit("nr-words-found");
    reveal_strlit("success");
    reveal_strlit("mode");
    reveal_strlit("number");
    reveal_strlit("page");
    reveal_strlit("uuid");
    reveal_strlit("details");
}

/// A list of strings is read back from its JSON form.
proof fn lemma_text_list_round_trip(items: Seq<Seq<char>>)
    ensures
        text_list(items) == JsonView::Array(text_list(items)->Array_0),
        all_text(text_list(items)->Array_0),
        texts(text_list(items)->Array_0) == items,
{
    assert(texts(text_list(items)->Array_0) =~= items);
}

/// A daily event is read back from its JSON form, and its JSON form has the
/// members of no other kind of event.
pub proof fn lemma_daily_round_trip(e: DailyEventView)
    ensures
        decode_daily(encode_daily(e)) == Some(e),
        decode_training_finished(encode_daily(e)) is None,
        decode_training_round(encode_daily(e)) is None,
        decode_numbers_round(encode_daily(e)) is None,
{
    lemma_keys();
    lemma_text_list_round_trip(e.dicts_active);
    reveal_with_fuel(member_from, 7);
}

/// A finished training session is read back from its JSON form, and its JSON
/// form has the members of no other kind of event.
pub proof fn lemma_training_finished_round_trip(e: TrainingFinishedEventView)
    ensures
        decode_training_finished(encode_training_finished(e)) == Some(e),
        decode_daily(encode_training_finished(e)) is None,
        decode_training_round(encode_training_finished(e)) is None,
        decode_numbers_round(encode_training_finished(e)) is None,
{
    lemma_keys();
    lemma_text_list_round_trip(e.dicts_active);
    reveal_with_fuel(member_from, 5);
}

/// A training round is read back from its JSON form, and its JSON form has
/// the members of no other kind of event.
pub proof fn lemma_training_round_round_trip(e: TrainingRoundEventView)
    ensures
        decode_training_round(encode_training_round(e)) == Some(e),
        decode_daily(encode_training_round(e)) is None,
        decode_training_finished(encode_training_round(e)) is None,
        decode_numbers_round(encode_training_round(e)) is None,
{
    lemma_keys();
    lemma_text_list_round_trip(e.dicts_active);
    reveal_with_fuel(member_from, 5);
}

/// A numbers round is read back from its JSON form, and its JSON form has
/// the members of no other kind of event.
pub proof fn lemma_numbers_round_round_trip(e: NumbersRoundEventView)
    ensures
        decode_numbers_round(encode_numbers_round(e)) == Some(e),
        decode_daily(encode_numbers_round(e)) is None,
        decode_training_finished(encode_numbers_round(e)) is None,
        decode_training_round(encode_numbers_round(e)) is None,
{
    lemma_keys();
    reveal_with_fuel(member_from, 3);
}

/// Every event is read back from its JSON form as it was.
pub proof fn lemma_event_round_trip(event: EventView)
    ensures
        decode_event(encode_event(event)) == Some(event),
{
    match event {
        EventView::Daily(e) => lemma_daily_round_trip(e),
        EventView::TrainingFinished(e) => lemma_training_finished_round_trip(e),
        EventView::TrainingRound(e) => lemma_training_round_round_trip(e),
        EventView::NumbersRound(e) => lemma_numbers_round_round_trip(e),
    }
}

/// Every submitted event is read back from its JSON form as it was.
pub proof fn lemma_page_event_round_trip(event: PageEventView)
    ensures
        decode_page_event(encode_page_event(event)) == Ok::<PageEventView, ValidationError>(event),
{
    lemma_keys();
    lemma_event_round_trip(event.event);
    reveal_with_fuel(member_from, 4);
}

/// `json` has the members of a daily event.
pub open spec fn fits_daily(json: JsonView) -> bool {
    decode_daily(json) is Some
}

/// `json` has the members of a finished training session.
pub open spec fn fits_training_finished(json: JsonView) -> bool {
    decode_training_finished(json) is Some
}

/// `json` has the members of a training round.
pub open spec fn fits_training_round(json: JsonView) -> bool {
    decode_training_round(json) is Some
}

/// `json` has the members of a numbers round.
pub open spec fn fits_numbers_round(json: JsonView) -> bool {
    decode_numbers_round(json) is Some
}

/// A value is read as a kind of event only where it has the members of that
/// kind, and a value that has the members of exactly one kind is read as that
/// kind. A value that has the members of no kind is no event.
pub proof fn lemma_variant_discrimination(json: JsonView)
    ensures
        decode_event(json) is Some <==> fits_daily(json) || fits_training_finished(json)
            || fits_training_round(json) || fits_numbers_round(json),
        decode_event(json) matches Some(EventView::Daily(e)) ==> decode_daily(json) == Some(e),
        decode_event(json) matches Some(EventView::TrainingFinished(e))
            ==> decode_training_finished(json) == Some(e),
        decode_event(json) matches Some(EventView::TrainingRound(e)) ==> decode_training_round(json)
            == Some(e),
        decode_event(json) matches Some(EventView::NumbersRound(e)) ==> decode_numbers_round(json)
            == Some(e),
        fits_daily(json) && !fits_training_finished(json) && !fits_training_round(json)
            && !fits_numbers_round(json) ==> decode_event(json) is Some && decode_event(
            json,
        )->0 is Daily,
        !fits_daily(json) && fits_training_finished(json) && !fits_training_round(json)
            && !fits_numbers_round(json) ==> decode_event(json) is Some && decode_event(
            json,
        )->0 is TrainingFinished,
        !fits_daily(json) && !fits_training_finished(json) && fits_training_round(json)
            && !fits_numbers_round(json) ==> decode_event(json) is Some && decode_event(
            json,
        )->0 is TrainingRound,
        !fits_daily(json) && !fits_training_finished(json) && !fits_training_round(json)
            && fits_numbers_round(json) ==> decode_event(json) is Some && decode_event(
            json,
        )->0 is NumbersRound,
{
}

/// A value that has the members of several kinds is read as the first of
/// them in the fixed order.
pub proof fn lemma_first_fit_wins(json: JsonView)
    ensures
        fits_daily(json) ==> decode_event(json) == Some(EventView::Daily(decode_daily(json)->0)),
        !fits_daily(json) && fits_training_finished(json) ==> decode_event(json) == Some(
            EventView::TrainingFinished(decode_training_finished(json)->0),
        ),
        !fits_daily(json) && !fits_training_finished(json) && fits_training_round(json)
            ==> decode_event(json) == Some(
            EventView::TrainingRound(decode_training_round(json)->0),
        ),
        !fits_daily(json) && !fits_training_finished(json) && !fits_training_round(json)
            && fits_numbers_round(json) ==> decode_event(json) == Some(
            EventView::NumbersRound(decode_numbers_round(json)->0),
        ),
{
}

/// `key` is the key of a member of one of the four kinds of event.
pub open spec fn event_key(key: Seq<char>) -> bool {
    ||| key == "dicts-active"@
    ||| key == "progress"@
    ||| key == "result"@
    ||| key == "attempts"@
    ||| key == "mistakes"@
    ||| key == "rata"@
    ||| key == "correct"@
    ||| key == "retries"@
    ||| key == "nr-words-found"@
    ||| key == "success"@
    ||| key == "mode"@
    ||| key == "number"@
}

/// A member whose key no kind of event knows, put in at any place, does not
/// change what event the object is read as.
pub proof fn lemma_unknown_members_are_ignored(
    members: Seq<(Seq<char>, JsonView)>,
    at: int,
    extra: (Seq<char>, JsonView),
)
    requires
        0 <= at <= members.len(),
        !event_key(extra.0),
    ensures
        decode_event(JsonView::Object(members.insert(at, extra))) == decode_event(
            JsonView::Object(members),
        ),
{
    lemma_member_ignores_other_keys(members, at, extra, "dicts-active"@);
    lemma_member_ignores_other_keys(members, at, extra, "progress"@);
    lemma_member_ignores_other_keys(members, at, extra, "result"@);
    lemma_member_ignores_other_keys(members, at, extra, "attempts"@);
    lemma_member_ignores_other_keys(members, at, extra, "mistakes"@);
    lemma_member_ignores_other_keys(members, at, extra, "rata"@);
    lemma_member_ignores_other_keys(members, at, extra, "correct"@);
    lemma_member_ignores_other_keys(members, at, extra, "retries"@);
    lemma_member_ignores_other_keys(members, at, extra, "nr-words-found"@);
    lemma_member_ignores_other_keys(members, at, extra, "success"@);
    lemma_member_ignores_other_keys(members, at, extra, "mode"@);
    lemma_member_ignores_other_keys(members, at, extra, "number"@);
}

/// A member other than `page`, `uuid` and `details`, put in at any place,
/// does not change what submitted event the object is read as.
pub proof fn lemma_unknown_envelope_members_are_ignored(
    members: Seq<(Seq<char>, JsonView)>,
    at: int,
    extra: (Seq<char>, JsonView),
)
    requires
        0 <= at <= members.len(),
        extra.0 != "page"@,
        extra.0 != "uuid"@,
        extra.0 != "details"@,
    ensures
        decode_page_event(JsonView::Object(members.insert(at, extra))) == decode_page_event(
            JsonView::Object(members),
        ),
{
    lemma_member_ignores_other_keys(members, at, extra, "page"@);
    lemma_member_ignores_other_keys(members, at, extra, "uuid"@);
    lemma_member_ignores_other_keys(members, at, extra, "details"@);
}

proof fn lemma_text_list_writable(items: Seq<Seq<char>>)
    ensures
        writable(text_list(items)),
{
    lemma_writable_array(text_list(items)->Array_0);
}

/// The JSON form of an event can be written as text.
pub proof fn lemma_encoded_event_writable(event: EventView)
    ensures
        writable(encode_event(event)),
{
    lemma_keys();
    let members = encode_event(event)->Object_0;
    match event {
        EventView::Daily(e) => {
            lemma_text_list_writable(e.dicts_active);
            assert(members.len() == 6);
        },
        EventView::TrainingFinished(e) => {
            lemma_text_list_writable(e.dicts_active);
            assert(members.len() == 4);
        },
        EventView::TrainingRound(e) => {
            lemma_text_list_writable(e.dicts_active);
            assert(members.len() == 4);
        },
        EventView::NumbersRound(e) => {
            assert(members.len() == 2);
        },
    }
    assert(distinct_keys(members));
    lemma_writable_object(members);
}

/// The JSON form of a submitted event can be written as text.
pub proof fn lemma_encoded_page_event_writable(event: PageEventView)
    ensures
        writable(encode_page_event(event)),
{
    lemma_keys();
    lemma_encoded_event_writable(event.event);
    let members = encode_page_event(event)->Object_0;
    assert(members.len() == 3);
    assert(distinct_keys(members));
    lemma_writable_object(members);
}

} // verus!
