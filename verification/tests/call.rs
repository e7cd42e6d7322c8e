use serde_json::Value;
use talbot::call::{
    answer_callback, callback_data, cancel_question, edit_question, expire_question, get_chat,
    get_updates, mark_answered, remove_question_buttons, request_id, send_question, Method,
};

fn json(text: &str) -> Value {
    serde_json::from_str(text).unwrap()
}

#[test]
fn looks_up_the_chat() {
    let call = get_chat("7");
    assert_eq!(call.method.name(), "getChat");
    assert_eq!(call.body, json(r#"{"chat_id":"7"}"#));
    assert_eq!(call.timeout_secs, None);
}

#[test]
fn asks_for_updates_from_the_offset_on() {
    let call = get_updates(None, 0);
    assert_eq!(call.method.name(), "getUpdates");
    assert_eq!(
        call.body,
        json(r#"{"timeout":0,"limit":100,"allowed_updates":["message","callback_query"]}"#)
    );
    assert_eq!(
        get_updates(Some(-12), 10).body,
        json(
            r#"{"timeout":10,"limit":100,"allowed_updates":["message","callback_query"],"offset":-12}"#
        )
    );
    assert_eq!(get_updates(None, u64::MAX).body["timeout"].as_u64(), Some(u64::MAX));
}

#[test]
fn sends_one_button_for_each_choice() {
    let choices = vec!["Yes".to_string(), "\"No\"".to_string()];
    let call = send_question("7", "Deploy?", Some("Finance Page"), "2af", &choices);
    assert_eq!(call.method.name(), "sendMessage");
    assert_eq!(
        call.body,
        json(
            r#"{
                "chat_id": "7",
                "text": "🚨 Action needed\n\nFinance Page\n\nDeploy?",
                "reply_markup": { "inline_keyboard": [
                    [{ "text": "Yes", "callback_data": "talbot:2af:0" }],
                    [{ "text": "\"No\"", "callback_data": "talbot:2af:1" }]
                ] }
            }"#
        )
    );
    assert_eq!(callback_data("2af", 10), "talbot:2af:10");
}

#[test]
fn edits_remove_the_buttons() {
    let call = edit_question("7", 9, "Closed");
    assert_eq!(call.method.name(), "editMessageText");
    assert_eq!(call.timeout_secs, Some(5));
    assert_eq!(
        call.body,
        json(
            r#"{"chat_id":"7","message_id":9,"text":"Closed","reply_markup":{"inline_keyboard":[]}}"#
        )
    );
    let call = remove_question_buttons(-7, 9);
    assert_eq!(call.method.name(), "editMessageReplyMarkup");
    assert_eq!(call.timeout_secs, Some(5));
    assert_eq!(
        call.body,
        json(r#"{"chat_id":-7,"message_id":9,"reply_markup":{"inline_keyboard":[]}}"#)
    );
}

#[test]
fn every_way_to_close_a_question_shows_how_it_ended() {
    let expired = expire_question("7", 9, "Deploy now?", None, "2 hours");
    assert_eq!(
        expired.body["text"].as_str(),
        Some("🟠 Action expired\n\nCodex stopped waiting after 2 hours. Go back to Codex to try again.\n\n──────────\nDeploy now?")
    );
    let cancelled = cancel_question("7", 9, "Deploy now?", Some("Finance Page"));
    assert_eq!(
        cancelled.body["text"].as_str(),
        Some("🟠 Action cancelled\n\nFinance Page\n\nCodex moved on, so this question is no longer active. Go back to Codex to try again.\n\n──────────\nDeploy now?")
    );
    let answered = mark_answered("7", 9, "Deploy now?", None, "Yes");
    assert_eq!(
        answered.body["text"].as_str(),
        Some("🟢 Action answered\n\nYou chose: Yes\n\n──────────\nDeploy now?")
    );
    for call in [expired, cancelled, answered] {
        assert_eq!(call.method, Method::EditMessageText);
        assert_eq!(call.body["chat_id"].as_str(), Some("7"));
        assert_eq!(call.body["message_id"].as_i64(), Some(9));
        assert_eq!(call.body["reply_markup"], json(r#"{"inline_keyboard":[]}"#));
    }
}

#[test]
fn answers_a_button() {
    let call = answer_callback("callback-1", "Done", Some(5));
    assert_eq!(call.method.name(), "answerCallbackQuery");
    assert_eq!(call.body, json(r#"{"callback_query_id":"callback-1","text":"Done"}"#));
    assert_eq!(call.timeout_secs, Some(5));
}

#[test]
fn names_requests_by_process_and_time() {
    assert_eq!(request_id(0x2a, 0xf00d), "2af00d");
    assert_eq!(
        request_id(u32::MAX, 1_700_000_000_000_000_000),
        format!("{:x}{:x}", u32::MAX, 1_700_000_000_000_000_000u128)
    );
    assert_ne!(request_id(42, 1), request_id(42, 2));
}
