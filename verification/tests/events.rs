use page_events::api::{
    DailyEvent, Event, NumbersRoundEvent, PageEvent, TrainingFinishedEvent, TrainingRoundEvent,
    ValidationError,
};
use page_events::json::Json;

fn daily() -> DailyEvent {
    DailyEvent {
        dicts_active: vec![String::from("some-dict1"), String::from("some-dict2")],
        progress: String::from("progress"),
        result: String::from("result"),
        attempts: 100,
        mistakes: 10,
        rata: 2000,
    }
}

fn through_text(event: &Event) -> Event {
    let text = event.encode().to_text().unwrap();
    Event::decode(&Json::from_text(&text).unwrap()).unwrap()
}

fn event_of(text: &str) -> Option<Event> {
    Event::decode(&Json::from_text(text).unwrap())
}

#[test]
fn daily_event() {
    let ev = PageEvent {
        page: String::from("daily"),
        uuid: String::from("mock-uuid"),
        event: Event::Daily(DailyEvent {
            dicts_active: vec![String::from("some-dict1"), String::from("some-dict2")],
            progress: String::from("progress"),
            result: String::from("result"),
            attempts: 100,
            mistakes: 10,
            rata: 2000,
        }),
    };

    let as_string = ev.encode().to_text().unwrap();
    let and_back = PageEvent::decode(&Json::from_text(&as_string).unwrap()).unwrap();

    assert_eq!(ev, and_back);
}

#[test]
fn page_event_text_is_exact() {
    let ev = PageEvent {
        page: String::from("daily"),
        uuid: String::from("mock-uuid"),
        event: Event::Daily(daily()),
    };
    assert_eq!(
        ev.encode().to_text().unwrap(),
        "{\"page\":\"daily\",\"uuid\":\"mock-uuid\",\"details\":{\"dicts-active\":[\"some-dict1\",\"some-dict2\"],\"progress\":\"progress\",\"result\":\"result\",\"attempts\":100,\"mistakes\":10,\"rata\":2000}}"
    );
}

#[test]
fn daily_text_is_exact() {
    assert_eq!(
        Event::Daily(daily()).encode().to_text().unwrap(),
        "{\"dicts-active\":[\"some-dict1\",\"some-dict2\"],\"progress\":\"progress\",\"result\":\"result\",\"attempts\":100,\"mistakes\":10,\"rata\":2000}"
    );
}

#[test]
fn training_finished_text_is_exact() {
    let event = Event::TrainingFinished(TrainingFinishedEvent {
        dicts_active: vec![String::from("a")],
        attempts: 7,
        correct: 5,
        retries: -2,
    });
    assert_eq!(
        event.encode().to_text().unwrap(),
        "{\"dicts-active\":[\"a\"],\"attempts\":7,\"correct\":5,\"retries\":-2}"
    );
}

#[test]
fn training_round_text_is_exact() {
    let event = Event::TrainingRound(TrainingRoundEvent {
        dicts_active: vec![],
        nr_words_found: 3,
        success: true,
        mistakes: 1,
    });
    assert_eq!(
        event.encode().to_text().unwrap(),
        "{\"dicts-active\":[],\"nr-words-found\":3,\"success\":true,\"mistakes\":1}"
    );
}

#[test]
fn numbers_round_text_is_exact() {
    let event = Event::NumbersRound(NumbersRoundEvent { mode: String::from("add"), number: 42 });
    assert_eq!(event.encode().to_text().unwrap(), "{\"mode\":\"add\",\"number\":42}");
}

#[test]
fn text_escapes_strings() {
    let event = Event::NumbersRound(NumbersRoundEvent {
        mode: String::from("a\"b\\c\nd"),
        number: -1,
    });
    assert_eq!(event.encode().to_text().unwrap(), "{\"mode\":\"a\\\"b\\\\c\\nd\",\"number\":-1}");
    assert_eq!(through_text(&event), event);
}

#[test]
fn round_trip_daily() {
    let event = Event::Daily(daily());
    assert_eq!(through_text(&event), event);
    assert_eq!(Event::decode(&event.encode()), Some(event));
}

#[test]
fn round_trip_training_finished() {
    let event = Event::TrainingFinished(TrainingFinishedEvent {
        dicts_active: vec![String::from("x"), String::from("y")],
        attempts: i32::MAX,
        correct: 0,
        retries: i32::MIN,
    });
    assert_eq!(through_text(&event), event);
    assert_eq!(Event::decode(&event.encode()), Some(event));
}

#[test]
fn round_trip_training_round() {
    let event = Event::TrainingRound(TrainingRoundEvent {
        dicts_active: vec![String::from("汉字")],
        nr_words_found: 12,
        success: false,
        mistakes: 4,
    });
    assert_eq!(through_text(&event), event);
    assert_eq!(Event::decode(&event.encode()), Some(event));
}

#[test]
fn round_trip_numbers_round() {
    for number in [i64::MIN, -1, 0, 42, i64::MAX] {
        let event = Event::NumbersRound(NumbersRoundEvent { mode: String::from("sub"), number });
        assert_eq!(through_text(&event), event);
        assert_eq!(Event::decode(&event.encode()), Some(event));
    }
}

#[test]
fn round_trip_page_event_of_every_kind() {
    let events = vec![
        Event::Daily(daily()),
        Event::TrainingFinished(TrainingFinishedEvent {
            dicts_active: vec![],
            attempts: 1,
            correct: 1,
            retries: 0,
        }),
        Event::TrainingRound(TrainingRoundEvent {
            dicts_active: vec![String::from("d")],
            nr_words_found: 0,
            success: true,
            mistakes: 0,
        }),
        Event::NumbersRound(NumbersRoundEvent { mode: String::from("add"), number: 42 }),
    ];
    for event in events {
        let ev = PageEvent { page: String::from("p"), uuid: String::from("u"), event };
        let text = ev.encode().to_text().unwrap();
        assert_eq!(PageEvent::decode(&Json::from_text(&text).unwrap()), Ok(ev));
    }
}

#[test]
fn numbers_shape_is_numbers_round() {
    assert_eq!(
        event_of("{\"mode\":\"add\",\"number\":42}"),
        Some(Event::NumbersRound(NumbersRoundEvent { mode: String::from("add"), number: 42 }))
    );
    let json = Json::from_text("{\"mode\":\"add\",\"number\":42}").unwrap();
    assert_eq!(DailyEvent::decode(&json), None);
    assert_eq!(TrainingFinishedEvent::decode(&json), None);
    assert_eq!(TrainingRoundEvent::decode(&json), None);
}

#[test]
fn training_round_shape_is_training_round() {
    let text = "{\"dicts-active\":[\"a\"],\"nr-words-found\":2,\"success\":false,\"mistakes\":9}";
    assert_eq!(
        event_of(text),
        Some(Event::TrainingRound(TrainingRoundEvent {
            dicts_active: vec![String::from("a")],
            nr_words_found: 2,
            success: false,
            mistakes: 9,
        }))
    );
    let json = Json::from_text(text).unwrap();
    assert_eq!(DailyEvent::decode(&json), None);
    assert_eq!(TrainingFinishedEvent::decode(&json), None);
    assert_eq!(NumbersRoundEvent::decode(&json), None);
}

#[test]
fn training_finished_shape_is_training_finished() {
    let text = "{\"dicts-active\":[],\"attempts\":3,\"correct\":2,\"retries\":1}";
    assert_eq!(
        event_of(text),
        Some(Event::TrainingFinished(TrainingFinishedEvent {
            dicts_active: vec![],
            attempts: 3,
            correct: 2,
            retries: 1,
        }))
    );
    let json = Json::from_text(text).unwrap();
    assert_eq!(DailyEvent::decode(&json), None);
    assert_eq!(TrainingRoundEvent::decode(&json), None);
    assert_eq!(NumbersRoundEvent::decode(&json), None);
}

#[test]
fn daily_shape_is_daily() {
    let text = "{\"dicts-active\":[\"a\"],\"progress\":\"p\",\"result\":\"r\",\"attempts\":1,\"mistakes\":2,\"rata\":3}";
    assert_eq!(
        event_of(text),
        Some(Event::Daily(DailyEvent {
            dicts_active: vec![String::from("a")],
            progress: String::from("p"),
            result: String::from("r"),
            attempts: 1,
            mistakes: 2,
            rata: 3,
        }))
    );
    let json = Json::from_text(text).unwrap();
    assert_eq!(TrainingFinishedEvent::decode(&json), None);
    assert_eq!(TrainingRoundEvent::decode(&json), None);
    assert_eq!(NumbersRoundEvent::decode(&json), None);
}

#[test]
fn first_matching_kind_wins() {
    // The members of a daily event and of a finished training session.
    let both = "{\"dicts-active\":[],\"progress\":\"p\",\"result\":\"r\",\"attempts\":1,\"mistakes\":2,\"rata\":3,\"correct\":4,\"retries\":5}";
    assert!(matches!(event_of(both), Some(Event::Daily(_))));
    // The members of a finished training session and of a training round.
    let both = "{\"dicts-active\":[],\"attempts\":1,\"correct\":4,\"retries\":5,\"nr-words-found\":2,\"success\":true,\"mistakes\":0}";
    assert!(matches!(event_of(both), Some(Event::TrainingFinished(_))));
    // The members of a training round and of a numbers round.
    let both = "{\"dicts-active\":[],\"nr-words-found\":2,\"success\":true,\"mistakes\":0,\"mode\":\"add\",\"number\":1}";
    assert!(matches!(event_of(both), Some(Event::TrainingRound(_))));
}

#[test]
fn unknown_members_are_ignored() {
    assert_eq!(
        event_of("{\"extra\":{\"deep\":[1,2.5,null]},\"number\":42,\"other\":1e3,\"mode\":\"add\"}"),
        Some(Event::NumbersRound(NumbersRoundEvent { mode: String::from("add"), number: 42 }))
    );
}

#[test]
fn wrong_types_match_no_kind() {
    // A number with a fraction is no integer.
    assert_eq!(event_of("{\"mode\":\"add\",\"number\":42.0}"), None);
    // A string is no integer.
    assert_eq!(event_of("{\"mode\":\"add\",\"number\":\"42\"}"), None);
    // An integer beyond i64.
    assert_eq!(event_of("{\"mode\":\"add\",\"number\":9223372036854775808}"), None);
    // An integer beyond i32 where an i32 is asked for.
    assert_eq!(
        event_of("{\"dicts-active\":[],\"attempts\":2147483648,\"correct\":2,\"retries\":1}"),
        None
    );
    // A list that holds something else than strings.
    assert_eq!(
        event_of("{\"dicts-active\":[\"a\",1],\"attempts\":3,\"correct\":2,\"retries\":1}"),
        None
    );
    // A boolean written as a number.
    assert_eq!(
        event_of("{\"dicts-active\":[],\"nr-words-found\":2,\"success\":1,\"mistakes\":9}"),
        None
    );
    // No object at all.
    assert_eq!(event_of("[\"add\",42]"), None);
    assert_eq!(event_of("null"), None);
    assert_eq!(event_of("{}"), None);
}

#[test]
fn i32_bounds_are_accepted() {
    assert_eq!(
        event_of("{\"dicts-active\":[],\"attempts\":2147483647,\"correct\":-2147483648,\"retries\":0}"),
        Some(Event::TrainingFinished(TrainingFinishedEvent {
            dicts_active: vec![],
            attempts: 2147483647,
            correct: -2147483648,
            retries: 0,
        }))
    );
    assert_eq!(
        event_of("{\"dicts-active\":[],\"attempts\":0,\"correct\":-2147483649,\"retries\":0}"),
        None
    );
}

#[test]
fn page_event_errors_name_the_first_fault() {
    let decode = |text: &str| PageEvent::decode(&Json::from_text(text).unwrap());
    let details = "{\"mode\":\"add\",\"number\":42}";
    assert_eq!(decode("[]"), Err(ValidationError::MissingPage));
    assert_eq!(decode("{}"), Err(ValidationError::MissingPage));
    assert_eq!(
        decode(&format!("{{\"page\":7,\"uuid\":\"u\",\"details\":{}}}", details)),
        Err(ValidationError::MissingPage)
    );
    assert_eq!(
        decode(&format!("{{\"page\":\"p\",\"details\":{}}}", details)),
        Err(ValidationError::MissingUuid)
    );
    assert_eq!(decode("{\"page\":\"p\",\"uuid\":\"u\"}"), Err(ValidationError::MissingDetails));
    assert_eq!(
        decode("{\"page\":\"p\",\"uuid\":\"u\",\"details\":{\"mode\":\"add\"}}"),
        Err(ValidationError::UnknownEvent)
    );
    assert_eq!(
        decode("{\"page\":\"p\",\"uuid\":\"u\",\"details\":null}"),
        Err(ValidationError::UnknownEvent)
    );
    assert_eq!(
        decode(&format!("{{\"details\":{},\"uuid\":\"u\",\"more\":1,\"page\":\"numbers\"}}", details)),
        Ok(PageEvent {
            page: String::from("numbers"),
            uuid: String::from("u"),
            event: Event::NumbersRound(NumbersRoundEvent { mode: String::from("add"), number: 42 }),
        })
    );
}

#[test]
fn validation_messages() {
    assert_eq!(ValidationError::MissingPage.message(), "missing string `page`");
    assert_eq!(ValidationError::MissingUuid.message(), "missing string `uuid`");
    assert_eq!(ValidationError::MissingDetails.message(), "missing member `details`");
    assert_eq!(ValidationError::UnknownEvent.message(), "`details` did not match any kind of event");
}
