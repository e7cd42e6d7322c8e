use serde_json::Value;
use talbot::call::{callback_data, Method};
use talbot::error::AskError;
use talbot::update::{
    dismiss_stale_callback, ensure_private_chat, first_answer, has_next_offset, next_offset,
    parse_answer, read_message_id, read_updates, IncomingAnswer,
};

fn json(text: &str) -> Value {
    serde_json::from_str(text).unwrap()
}

fn choices() -> Vec<String> {
    vec!["First".to_string(), "Second".to_string()]
}

fn button(from: i64, chat: i64, data: &str) -> Value {
    json(&format!(
        r#"{{"callback_query":{{"id":"callback-1","from":{{"id":{from}}},"message":{{"chat":{{"id":{chat}}}}},"data":"{data}"}}}}"#
    ))
}

fn message(from: i64, chat: i64, text: &str) -> Value {
    json(&format!(
        r#"{{"message":{{"from":{{"id":{from}}},"chat":{{"id":{chat}}},"text":"{text}"}}}}"#
    ))
}

#[test]
fn advances_past_the_latest_update() {
    let updates = vec![json(r#"{ "update_id": 7 }"#), json(r#"{ "update_id": 11 }"#)];
    assert_eq!(next_offset(&updates), Some(12));
    assert_eq!(next_offset(&[]), None);
}

#[test]
fn skips_updates_without_a_number() {
    let updates = vec![
        json(r#"{ "update_id": 11 }"#),
        json(r#"{ "update_id": "99" }"#),
        json(r#"{ "update_id": 12.5 }"#),
        json(r#"{ "update_id": 9223372036854775808 }"#),
        json("[12]"),
        json(r#"{ "update_id": -3 }"#),
    ];
    assert_eq!(next_offset(&updates), Some(12));
    assert_eq!(next_offset(&updates[1..5]), None);
    assert_eq!(next_offset(&updates[5..]), Some(-2));
}

#[test]
fn notices_when_no_number_is_left() {
    let last = json(r#"{ "update_id": 9223372036854775807 }"#);
    let before = json(r#"{ "update_id": 9223372036854775806 }"#);
    assert!(!has_next_offset(&[before.clone(), last]));
    assert!(has_next_offset(&[before.clone()]));
    assert_eq!(next_offset(&[before]), Some(i64::MAX));
}

#[test]
fn parses_matching_button_answer() {
    let update = json(
        r#"{
            "callback_query": {
                "id": "callback-1",
                "from": { "id": 42 },
                "message": { "chat": { "id": 42 } },
                "data": "talbot:request-1:1"
            }
        }"#,
    );
    assert_eq!(
        parse_answer(&update, 42, "request-1", &choices()),
        Some(IncomingAnswer::Choice {
            text: "Second".to_string(),
            callback_query_id: "callback-1".to_string()
        })
    );
}

#[test]
fn rejects_button_from_another_user_or_request() {
    let wrong_user = json(
        r#"{
            "callback_query": {
                "id": "callback-1",
                "from": { "id": 99 },
                "message": { "chat": { "id": 42 } },
                "data": "talbot:request-1:0"
            }
        }"#,
    );
    let wrong_request = json(
        r#"{
            "callback_query": {
                "id": "callback-1",
                "from": { "id": 42 },
                "message": { "chat": { "id": 42 } },
                "data": "talbot:old-request:0"
            }
        }"#,
    );
    assert_eq!(parse_answer(&wrong_user, 42, "request-1", &choices()), None);
    assert_eq!(parse_answer(&wrong_request, 42, "request-1", &choices()), None);
}

#[test]
fn parses_text_from_the_configured_private_chat() {
    let update = json(
        r#"{
            "message": {
                "from": { "id": 42 },
                "chat": { "id": 42 },
                "text": "A custom answer"
            }
        }"#,
    );
    assert_eq!(
        parse_answer(&update, 42, "request-1", &choices()),
        Some(IncomingAnswer::Text("A custom answer".to_string()))
    );
}

#[test]
fn each_button_answers_with_its_choice() {
    for (index, choice) in choices().iter().enumerate() {
        let update = button(42, 42, &callback_data("2af", index));
        let answer = parse_answer(&update, 42, "2af", &choices()).unwrap();
        assert_eq!(answer.text(), choice);
    }
}

#[test]
fn odd_buttons_answer_nothing() {
    for data in [
        "talbot:2af:2", "talbot:2af:", "talbot:2af:x", "talbot:2af", "talbot:2af:-0", "2af:0", "",
        "talbot:2af:1:0", "talbot:2af:99999999999999999999999",
    ] {
        assert_eq!(parse_answer(&button(42, 42, data), 42, "2af", &choices()), None);
    }
    assert_eq!(
        parse_answer(&button(42, 42, "talbot:2af:+1"), 42, "2af", &choices()).unwrap().text(),
        "Second"
    );
    let nameless = json(
        r#"{"callback_query":{"from":{"id":42},"message":{"chat":{"id":42}},"data":"talbot:2af:0"},
            "message":{"from":{"id":42},"chat":{"id":42},"text":"Yes"}}"#,
    );
    assert_eq!(parse_answer(&nameless, 42, "2af", &choices()), None);
}

#[test]
fn only_words_of_the_user_answer() {
    assert_eq!(
        parse_answer(&message(42, 42, " Maybe\\n"), 42, "2af", &choices()),
        Some(IncomingAnswer::Text("Maybe".to_string()))
    );
    assert_eq!(parse_answer(&message(42, 42, " \\n "), 42, "2af", &choices()), None);
    assert_eq!(parse_answer(&message(99, 42, "Maybe"), 42, "2af", &choices()), None);
    assert_eq!(parse_answer(&message(42, 99, "Maybe"), 42, "2af", &choices()), None);
    assert_eq!(parse_answer(&json("null"), 42, "2af", &choices()), None);
}

#[test]
fn the_first_answer_counts() {
    let updates = vec![
        message(99, 99, "Not me"),
        button(42, 42, "talbot:old:0"),
        message(42, 42, "Mine"),
        button(42, 42, "talbot:2af:0"),
    ];
    assert_eq!(first_answer(&updates, 42, "2af", &choices()).unwrap().text(), "Mine");
    assert_eq!(first_answer(&updates[..2], 42, "2af", &choices()), None);
}

#[test]
fn closes_old_buttons_of_the_user() {
    let update = json(
        r#"{"callback_query":{"id":"callback-1","from":{"id":42},"message":{"chat":{"id":42},"message_id":9}}}"#,
    );
    let dismissal = dismiss_stale_callback(&update, 42).unwrap();
    assert_eq!(dismissal.answer.method, Method::AnswerCallbackQuery);
    assert_eq!(dismissal.answer.timeout_secs, Some(5));
    assert_eq!(
        dismissal.answer.body,
        json(
            r#"{"callback_query_id":"callback-1","text":"🟠 This action expired. Go back to Codex and try again."}"#
        )
    );
    assert_eq!(
        dismissal.remove_buttons.unwrap().body,
        json(r#"{"chat_id":42,"message_id":9,"reply_markup":{"inline_keyboard":[]}}"#)
    );
    assert!(dismiss_stale_callback(&update, 99).is_none());
    assert!(dismiss_stale_callback(&button(99, 42, "x"), 42).is_none());
    assert!(dismiss_stale_callback(&button(42, 42, "x"), 42).unwrap().remove_buttons.is_none());
    assert!(dismiss_stale_callback(&message(42, 42, "x"), 42).is_none());
    let nameless =
        json(r#"{"callback_query":{"id":1,"from":{"id":42},"message":{"chat":{"id":42}}}}"#);
    assert!(dismiss_stale_callback(&nameless, 42).is_none());
}

#[test]
fn asks_only_in_private_chats() {
    assert_eq!(ensure_private_chat(&json(r#"{"type":"private","id":42}"#)), Ok(42));
    for details in [r#"{"type":"group","id":42}"#, r#"{"id":42}"#, r#"{"type":1,"id":42}"#, "[]"] {
        assert_eq!(ensure_private_chat(&json(details)), Err(AskError::NotPrivate));
    }
    for details in [r#"{"type":"private"}"#, r#"{"type":"private","id":"42"}"#] {
        assert_eq!(ensure_private_chat(&json(details)), Err(AskError::MissingChatId));
    }
}

#[test]
fn reads_replies() {
    assert_eq!(read_updates(&json("[1, 2]")).unwrap().len(), 2);
    assert_eq!(read_updates(&json("{}")).unwrap_err(), AskError::UpdatesNotArray);
    assert_eq!(read_message_id(&json(r#"{"message_id":9}"#)), Ok(9));
    assert_eq!(read_message_id(&json("{}")), Err(AskError::MissingMessageId));
    assert_eq!(read_message_id(&json(r#"{"message_id":"9"}"#)), Err(AskError::MissingMessageId));
}
