use page_events::json::Json;
use page_events::json_text::JsonError;

#[test]
fn reads_every_kind_of_value() {
    let json = Json::from_text(
        "{\"n\":null,\"t\":true,\"i\":-7,\"f\":1.5,\"big\":18446744073709551615,\"s\":\"x\",\"a\":[1,\"two\",[]],\"o\":{\"k\":false}}",
    )
    .unwrap();
    assert_eq!(
        json,
        Json::Object(vec![
            (String::from("n"), Json::Null),
            (String::from("t"), Json::Bool(true)),
            (String::from("i"), Json::Int(-7)),
            (String::from("f"), Json::OtherNumber),
            (String::from("big"), Json::OtherNumber),
            (String::from("s"), Json::Str(String::from("x"))),
            (
                String::from("a"),
                Json::Array(vec![Json::Int(1), Json::Str(String::from("two")), Json::Array(vec![])])
            ),
            (String::from("o"), Json::Object(vec![(String::from("k"), Json::Bool(false))])),
        ])
    );
}

#[test]
fn reads_members_in_document_order() {
    let json = Json::from_text("{\"z\":1,\"a\":2,\"m\":3}").unwrap();
    assert_eq!(
        json,
        Json::Object(vec![
            (String::from("z"), Json::Int(1)),
            (String::from("a"), Json::Int(2)),
            (String::from("m"), Json::Int(3)),
        ])
    );
}

#[test]
fn writes_members_in_their_order() {
    let json = Json::object(vec![
        Json::member("z", Json::integer(1)),
        Json::member("a", Json::boolean(false)),
        Json::member("m", Json::array(vec![Json::Null, Json::text("t")])),
    ]);
    assert_eq!(json.to_text().unwrap(), "{\"z\":1,\"a\":false,\"m\":[null,\"t\"]}");
}

#[test]
fn text_round_trip_of_a_value() {
    let json = Json::Object(vec![
        (String::from("b"), Json::Array(vec![Json::Int(i64::MIN), Json::Int(i64::MAX)])),
        (String::from("a"), Json::Object(vec![])),
        (String::from("c"), Json::Str(String::from("é \u{1F600} \t"))),
    ]);
    let text = json.to_text().unwrap();
    assert_eq!(Json::from_text(&text).unwrap(), json);
}

#[test]
fn rejects_text_that_is_no_json() {
    for text in ["", "{", "{\"a\":}", "nul", "{\"a\":1,}", "[1 2]", "{\"a\":1} x"] {
        assert!(matches!(Json::from_text(text), Err(JsonError::Syntax(_))), "{}", text);
    }
}

#[test]
fn syntax_error_carries_a_message() {
    match Json::from_text("{\"a\":") {
        Err(JsonError::Syntax(message)) => {
            assert!(!message.is_empty());
            assert_eq!(JsonError::Syntax(message.clone()).message(), message);
        }
        other => panic!("{:?}", other),
    }
}

#[test]
fn other_number_cannot_be_written() {
    assert_eq!(Json::OtherNumber.to_text(), Err(JsonError::NotWritable));
    assert_eq!(
        Json::Array(vec![Json::Int(1), Json::Array(vec![Json::OtherNumber])]).to_text(),
        Err(JsonError::NotWritable)
    );
    assert_eq!(
        Json::Object(vec![(String::from("a"), Json::OtherNumber)]).to_text(),
        Err(JsonError::NotWritable)
    );
}

#[test]
fn duplicate_keys_cannot_be_written() {
    let json = Json::Object(vec![
        (String::from("a"), Json::Int(1)),
        (String::from("b"), Json::Int(2)),
        (String::from("a"), Json::Int(3)),
    ]);
    assert_eq!(json.to_text(), Err(JsonError::NotWritable));
    let nested = Json::Array(vec![json]);
    assert_eq!(nested.to_text(), Err(JsonError::NotWritable));
}

#[test]
fn error_messages() {
    assert_eq!(JsonError::NotWritable.message(), "value cannot be written as JSON");
    assert_eq!(JsonError::Write(String::from("w")).message(), "w");
    assert_eq!(JsonError::Syntax(String::from("s")).message(), "s");
}

#[test]
fn get_returns_the_first_member_with_the_key() {
    let json = Json::Object(vec![
        (String::from("a"), Json::Int(1)),
        (String::from("b"), Json::Int(2)),
        (String::from("a"), Json::Int(3)),
    ]);
    assert_eq!(json.get("a"), Some(&Json::Int(1)));
    assert_eq!(json.get("b"), Some(&Json::Int(2)));
    assert_eq!(json.get("c"), None);
    assert_eq!(Json::Array(vec![]).get("a"), None);
    assert_eq!(Json::Null.get("a"), None);
}

#[test]
fn typed_members() {
    let json = Json::from_text(
        "{\"s\":\"x\",\"b\":true,\"i\":5,\"big\":3000000000,\"l\":[\"a\",\"b\"],\"mixed\":[\"a\",2],\"f\":0.5}",
    )
    .unwrap();
    assert_eq!(json.text_member("s"), Some(String::from("x")));
    assert_eq!(json.text_member("i"), None);
    assert_eq!(json.text_member("none"), None);
    assert_eq!(json.bool_member("b"), Some(true));
    assert_eq!(json.bool_member("s"), None);
    assert_eq!(json.i64_member("i"), Some(5));
    assert_eq!(json.i64_member("big"), Some(3000000000));
    assert_eq!(json.i64_member("f"), None);
    assert_eq!(json.i32_member("i"), Some(5));
    assert_eq!(json.i32_member("big"), None);
    assert_eq!(json.text_list_member("l"), Some(vec![String::from("a"), String::from("b")]));
    assert_eq!(json.text_list_member("mixed"), None);
    assert_eq!(json.text_list_member("s"), None);
}

#[test]
fn lists() {
    assert_eq!(
        Json::text_list(&vec![String::from("a"), String::from("b")]),
        Json::Array(vec![Json::Str(String::from("a")), Json::Str(String::from("b"))])
    );
    assert_eq!(Json::int_list(&vec![1, -2]), Json::Array(vec![Json::Int(1), Json::Int(-2)]));
    assert_eq!(Json::text_list(&vec![]), Json::Array(vec![]));
}

#[test]
fn every_writable_value_is_written() {
    let values = vec![
        Json::Null,
        Json::Bool(true),
        Json::Int(0),
        Json::Str(String::new()),
        Json::Array(vec![]),
        Json::Object(vec![]),
        Json::Object(vec![(String::new(), Json::Array(vec![Json::Object(vec![])]))]),
    ];
    let texts = ["null", "true", "0", "\"\"", "[]", "{}", "{\"\":[{}]}"];
    for (value, text) in values.iter().zip(texts) {
        assert_eq!(value.to_text(), Ok(String::from(text)));
    }
}
