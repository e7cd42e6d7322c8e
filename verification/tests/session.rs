use serde_json::Value;
use talbot::call::{Call, Method};
use talbot::error::AskError;
use talbot::lock::Span;
use talbot::question::Question;
use talbot::session::{Action, Event, Outcome, Session, POLL_TIMEOUT_SECS};

fn json(text: &str) -> Value {
    serde_json::from_str(text).unwrap()
}

fn reply(text: &str) -> Event {
    Event::Reply(json(text))
}

fn question() -> Question {
    let choices = vec!["Yes".to_string(), "No".to_string()];
    Question::check("Deploy now?", &choices, 60, None).unwrap()
}

struct Course {
    session: Option<Session>,
    action: Action,
}

impl Course {
    fn start() -> Course {
        let (session, action) = Session::start(question());
        Course { session: Some(session), action }
    }

    fn tell(&mut self, event: Event) -> &Action {
        let (session, action) = self.session.take().unwrap().try_advance(event).unwrap();
        self.session = Some(session);
        self.action = action;
        &self.action
    }

    /// A session whose chat was checked and that has the lock.
    fn locked() -> Course {
        let mut course = Course::start();
        assert!(matches!(course.action, Action::CheckCancelled));
        assert!(matches!(course.tell(Event::Cancelled(false)), Action::FindChat));
        let call = call_of(course.tell(Event::Chat("7".to_string())));
        assert_eq!(call.method, Method::GetChat);
        assert_eq!(call.body["chat_id"].as_str(), Some("7"));
        assert!(matches!(course.tell(reply(r#"{"type":"private","id":42}"#)), Action::TakeLock));
        assert!(matches!(course.tell(Event::Done), Action::ReadOffset));
        course
    }

    /// A session whose question was sent as the message 9 of the request 2af.
    fn waiting() -> Course {
        let mut course = Course::locked();
        let call = call_of(course.tell(Event::Offset(Some(5))));
        assert_eq!(call.method, Method::GetUpdates);
        assert_eq!(call.body["offset"].as_i64(), Some(5));
        assert_eq!(call.body["timeout"].as_u64(), Some(0));
        assert!(matches!(course.tell(reply("[]")), Action::CheckCancelled));
        assert!(matches!(course.tell(Event::Cancelled(false)), Action::NameRequest));
        let call = call_of(course.tell(Event::Request { pid: 0x2, nanos: 0xaf }));
        assert_eq!(call.method, Method::SendMessage);
        assert_eq!(
            call.body["reply_markup"]["inline_keyboard"][1][0]["callback_data"].as_str(),
            Some("talbot:2af:1")
        );
        match course.tell(reply(r#"{"message_id":9}"#)) {
            Action::Record { pid, chat, message_id } => {
                assert_eq!((*pid, chat.as_str(), *message_id), (2, "7", 9));
            }
            other => panic!("{other:?}"),
        }
        assert!(matches!(course.tell(Event::Done), Action::StartClock { timeout_secs: 60 }));
        assert!(matches!(course.tell(Event::Done), Action::CheckCancelled));
        course
    }

    /// A session that waits for updates.
    fn polling() -> Course {
        let mut course = Course::waiting();
        assert!(matches!(course.tell(Event::Cancelled(false)), Action::ReadClock));
        let call = call_of(course.tell(Event::Remaining(Span { secs: 60, nanos: 0 })));
        assert_eq!(call.method, Method::GetUpdates);
        assert_eq!(call.body["timeout"].as_u64(), Some(10));
        assert_eq!(call.body["offset"].as_i64(), Some(5));
        course
    }
}

fn call_of(action: &Action) -> &Call {
    match action {
        Action::Call(call) => call,
        other => panic!("{other:?}"),
    }
}

fn closing_text(action: &Action) -> &str {
    match action {
        Action::Close(call) => {
            assert_eq!(call.method, Method::EditMessageText);
            assert_eq!(call.body["chat_id"].as_str(), Some("7"));
            assert_eq!(call.body["message_id"].as_i64(), Some(9));
            assert_eq!(call.body["reply_markup"], json(r#"{"inline_keyboard":[]}"#));
            call.body["text"].as_str().unwrap()
        }
        other => panic!("{other:?}"),
    }
}

fn refusal(action: &Action) -> AskError {
    match action {
        Action::Finish(Outcome::Refused(error)) => *error,
        other => panic!("{other:?}"),
    }
}

fn answer(action: &Action) -> &str {
    match action {
        Action::Finish(Outcome::Answered(text)) => text,
        other => panic!("{other:?}"),
    }
}

fn failed(action: &Action) -> bool {
    matches!(action, Action::Finish(Outcome::Failed))
}

const BUTTON: &str = r#"{"update_id":11,"callback_query":{"id":"callback-1","from":{"id":42},"message":{"chat":{"id":42},"message_id":9},"data":"talbot:2af:1"}}"#;
const WORDS: &str =
    r#"{"update_id":11,"message":{"from":{"id":42},"chat":{"id":42},"text":" Later "}}"#;
const CANCELLED: &str = "🟠 Action cancelled\n\nCodex moved on, so this question is no longer active. Go back to Codex to try again.\n\n──────────\nDeploy now?";

#[test]
fn uses_ten_second_telegram_long_polls() {
    assert_eq!(POLL_TIMEOUT_SECS, 10);
}

#[test]
fn a_button_answers() {
    let mut course = Course::polling();
    assert!(matches!(course.tell(reply(&format!("[{BUTTON}]"))), Action::CheckCancelled));
    assert!(matches!(course.tell(Event::Cancelled(false)), Action::StoreOffset(12)));
    assert!(matches!(course.tell(Event::Done), Action::CheckCancelled));
    let call = call_of(course.tell(Event::Cancelled(false)));
    assert_eq!(call.method, Method::AnswerCallbackQuery);
    assert_eq!(
        call.body,
        json(r#"{"callback_query_id":"callback-1","text":"🟢 Answer received."}"#)
    );
    assert_eq!(call.timeout_secs, None);
    assert_eq!(
        closing_text(course.tell(Event::Failed)),
        "🟢 Action answered\n\nYou chose: No\n\n──────────\nDeploy now?"
    );
    assert_eq!(answer(course.tell(Event::Failed)), "No");
}

#[test]
fn words_answer() {
    let mut course = Course::polling();
    course.tell(reply(&format!("[{WORDS},{BUTTON}]")));
    assert!(matches!(course.tell(Event::Cancelled(false)), Action::StoreOffset(12)));
    assert!(matches!(course.tell(Event::Done), Action::CheckCancelled));
    assert_eq!(
        closing_text(course.tell(Event::Cancelled(false))),
        "🟢 Action answered\n\nYou chose: Later\n\n──────────\nDeploy now?"
    );
    assert_eq!(answer(course.tell(Event::Done)), "Later");
}

#[test]
fn goes_on_waiting_without_an_answer() {
    let mut course = Course::polling();
    course.tell(reply(r#"[{"update_id":20}]"#));
    assert!(matches!(course.tell(Event::Cancelled(false)), Action::StoreOffset(21)));
    assert!(matches!(course.tell(Event::Done), Action::CheckCancelled));
    assert!(matches!(course.tell(Event::Cancelled(false)), Action::ReadClock));
    let call = call_of(course.tell(Event::Remaining(Span { secs: 0, nanos: 1 })));
    assert_eq!(call.body["timeout"].as_u64(), Some(1));
    assert_eq!(call.body["offset"].as_i64(), Some(21));
    course.tell(reply("[]"));
    assert!(matches!(course.tell(Event::Cancelled(false)), Action::CheckCancelled));
    assert!(matches!(course.tell(Event::Cancelled(false)), Action::ReadClock));
    let call = call_of(course.tell(Event::Remaining(Span { secs: 7, nanos: 500 })));
    assert_eq!(call.body["timeout"].as_u64(), Some(7));
    assert_eq!(call.body["offset"].as_i64(), Some(21));
}

#[test]
fn a_wait_starts_when_the_question_is_recorded() {
    for event in [Event::Failed, Event::Cancelled(false)] {
        let mut course = Course::locked();
        course.tell(Event::Offset(None));
        course.tell(reply("[]"));
        course.tell(Event::Cancelled(false));
        course.tell(Event::Request { pid: 3, nanos: 1 });
        match course.tell(reply(r#"{"message_id":-4}"#)) {
            Action::Record { pid, chat, message_id } => {
                assert_eq!((*pid, chat.as_str(), *message_id), (3, "7", -4));
            }
            other => panic!("{other:?}"),
        }
        assert!(failed(course.tell(event)));
    }
}

#[test]
fn an_answer_after_the_end_counts_for_nothing() {
    let mut course = Course::waiting();
    course.tell(Event::Cancelled(false));
    course.tell(Event::Remaining(Span { secs: 0, nanos: 0 }));
    assert!(failed(course.tell(reply(&format!("[{BUTTON}]")))));
    assert!(failed(course.tell(Event::Cancelled(false))));

    let mut course = Course::polling();
    course.tell(reply(&format!("[{WORDS}]")));
    course.tell(Event::Cancelled(false));
    course.tell(Event::Done);
    course.tell(Event::Cancelled(false));
    assert_eq!(answer(course.tell(Event::Done)), "Later");
    assert!(failed(course.tell(Event::Done)));
}

#[test]
fn expires_when_no_time_is_left() {
    for (event, closed) in [(Event::Done, true), (Event::Failed, false)] {
        let mut course = Course::waiting();
        course.tell(Event::Cancelled(false));
        assert_eq!(
            closing_text(course.tell(Event::Remaining(Span { secs: 0, nanos: 0 }))),
            "🟠 Action expired\n\nCodex stopped waiting after 1 minute. Go back to Codex to try again.\n\n──────────\nDeploy now?"
        );
        assert_eq!(refusal(course.tell(event)), AskError::Expired { timeout_secs: 60, closed });
    }
}

#[test]
fn nothing_is_sent_for_a_caller_who_stopped_waiting() {
    let mut course = Course::start();
    assert_eq!(refusal(course.tell(Event::Cancelled(true))), AskError::CancelledBeforeSend);
    let mut course = Course::locked();
    course.tell(Event::Offset(None));
    course.tell(reply("[]"));
    assert_eq!(refusal(course.tell(Event::Cancelled(true))), AskError::CancelledBeforeSend);
}

#[test]
fn a_caller_who_stopped_waiting_gets_no_answer() {
    let mut course = Course::waiting();
    assert_eq!(closing_text(course.tell(Event::Cancelled(true))), CANCELLED);
    assert_eq!(refusal(course.tell(Event::Done)), AskError::Cancelled { closed: true });

    let mut course = Course::polling();
    course.tell(Event::Failed);
    assert_eq!(closing_text(course.tell(Event::Cancelled(true))), CANCELLED);
    assert_eq!(refusal(course.tell(Event::Failed)), AskError::Cancelled { closed: false });

    let mut course = Course::polling();
    course.tell(reply(&format!("[{BUTTON}]")));
    assert_eq!(closing_text(course.tell(Event::Cancelled(true))), CANCELLED);

    let mut course = Course::polling();
    course.tell(reply(&format!("[{BUTTON}]")));
    course.tell(Event::Cancelled(false));
    course.tell(Event::Done);
    assert_eq!(closing_text(course.tell(Event::Cancelled(true))), CANCELLED);
    assert_eq!(refusal(course.tell(Event::Done)), AskError::Cancelled { closed: true });
    assert!(failed(course.tell(reply(&format!("[{BUTTON}]")))));
}

#[test]
fn a_poll_that_fails_ends_the_wait() {
    let mut course = Course::polling();
    assert!(matches!(course.tell(Event::Failed), Action::CheckCancelled));
    assert!(failed(course.tell(Event::Cancelled(false))));
    let mut course = Course::polling();
    assert!(matches!(course.tell(reply("{}")), Action::CheckCancelled));
    assert_eq!(refusal(course.tell(Event::Cancelled(false))), AskError::UpdatesNotArray);
    let mut course = Course::polling();
    course.tell(reply(&format!("[{BUTTON}]")));
    course.tell(Event::Cancelled(false));
    assert!(failed(course.tell(Event::Failed)));
}

#[test]
fn asks_nobody_but_the_user() {
    let mut course = Course::start();
    course.tell(Event::Cancelled(false));
    course.tell(Event::Chat("7".to_string()));
    assert_eq!(
        refusal(course.tell(reply(r#"{"type":"group","id":42}"#))),
        AskError::NotPrivate
    );
    let mut course = Course::start();
    course.tell(Event::Cancelled(false));
    assert!(failed(course.tell(Event::Failed)));
}

#[test]
fn needs_the_lock_and_the_message() {
    let mut course = Course::start();
    course.tell(Event::Cancelled(false));
    course.tell(Event::Chat("7".to_string()));
    course.tell(reply(r#"{"type":"private","id":42}"#));
    assert!(failed(course.tell(Event::Failed)));
    let mut course = Course::locked();
    course.tell(Event::Offset(None));
    course.tell(reply("[]"));
    course.tell(Event::Cancelled(false));
    course.tell(Event::Request { pid: 1, nanos: 1 });
    assert_eq!(refusal(course.tell(reply("{}"))), AskError::MissingMessageId);
}

fn full_batch() -> String {
    let updates: Vec<String> =
        (0..100).map(|id| format!(r#"{{"update_id":{id}}}"#)).collect();
    format!("[{}]", updates.join(","))
}

#[test]
fn old_updates_are_dealt_with_before_the_question_is_sent() {
    let mut course = Course::locked();
    course.tell(Event::Offset(None));
    match course.tell(reply(&full_batch())) {
        Action::Settle { dismissals, offset } => {
            assert!(dismissals.is_empty());
            assert_eq!(*offset, Some(100));
        }
        other => panic!("{other:?}"),
    }
    let call = call_of(course.tell(Event::Done));
    assert_eq!(call.body["offset"].as_i64(), Some(100));
    assert_eq!(call.body["timeout"].as_u64(), Some(0));
    match course.tell(reply(&format!("[{BUTTON},{WORDS}]"))) {
        Action::Settle { dismissals, offset } => {
            assert_eq!(dismissals.len(), 1);
            assert_eq!(
                dismissals[0].answer.body["callback_query_id"].as_str(),
                Some("callback-1")
            );
            assert_eq!(*offset, Some(12));
        }
        other => panic!("{other:?}"),
    }
    assert!(matches!(course.tell(Event::Done), Action::CheckCancelled));
    assert!(matches!(course.tell(Event::Cancelled(false)), Action::NameRequest));
}

#[test]
fn gives_up_on_endless_old_updates() {
    let mut course = Course::locked();
    course.tell(Event::Offset(None));
    let batch = full_batch();
    for _ in 0..99 {
        assert!(matches!(course.tell(reply(&batch)), Action::Settle { .. }));
        assert!(matches!(course.tell(Event::Done), Action::Call(_)));
    }
    course.tell(reply(&batch));
    assert_eq!(refusal(course.tell(Event::Done)), AskError::TooManyUpdates);
    let mut course = Course::locked();
    course.tell(Event::Offset(None));
    assert_eq!(refusal(course.tell(reply("null"))), AskError::UpdatesNotArray);
    let mut course = Course::locked();
    course.tell(Event::Offset(None));
    course.tell(reply(&batch));
    assert!(failed(course.tell(Event::Failed)));
}

const LAST: &str = r#"[{"update_id":9223372036854775807}]"#;

#[test]
fn stops_where_no_number_is_left() {
    let mut course = Course::polling();
    assert!(matches!(course.tell(reply(LAST)), Action::CheckCancelled));
    assert!(course.session.unwrap().try_advance(Event::Cancelled(false)).is_none());

    let mut course = Course::locked();
    course.tell(Event::Offset(None));
    assert!(course.session.unwrap().try_advance(reply(LAST)).is_none());
}

#[test]
fn a_caller_who_stopped_waiting_needs_no_number() {
    let mut course = Course::polling();
    course.tell(reply(LAST));
    assert_eq!(closing_text(course.tell(Event::Cancelled(true))), CANCELLED);
    assert_eq!(refusal(course.tell(Event::Done)), AskError::Cancelled { closed: true });
}

#[test]
fn only_updates_are_numbered() {
    let mut course = Course::start();
    assert!(failed(course.tell(reply(LAST))));

    let mut course = Course::start();
    course.tell(Event::Cancelled(false));
    course.tell(Event::Chat("7".to_string()));
    assert_eq!(refusal(course.tell(reply(LAST))), AskError::NotPrivate);

    let mut course = Course::locked();
    course.tell(Event::Offset(None));
    course.tell(reply("[]"));
    course.tell(Event::Cancelled(false));
    course.tell(Event::Request { pid: 1, nanos: 1 });
    assert_eq!(refusal(course.tell(reply(LAST))), AskError::MissingMessageId);

    let mut course = Course::polling();
    course.tell(reply(&format!("[{BUTTON}]")));
    course.tell(Event::Cancelled(false));
    course.tell(Event::Done);
    assert_eq!(call_of(course.tell(Event::Cancelled(false))).method, Method::AnswerCallbackQuery);
    assert_eq!(
        closing_text(course.tell(reply(LAST))),
        "🟢 Action answered\n\nYou chose: No\n\n──────────\nDeploy now?"
    );
    assert_eq!(answer(course.tell(Event::Done)), "No");
}

#[test]
fn new_updates_are_read_after_the_old_ones() {
    let old = r#"[{"update_id":30},{"update_id":20}]"#;
    for (batches, offset) in [
        (vec![old], Some(31)),
        (vec!["[]"], Some(5)),
        (vec!["[{}]"], Some(5)),
        (vec![&full_batch(), "[{}]"], Some(100)),
        (vec![&full_batch(), old], Some(31)),
    ] {
        let mut course = Course::locked();
        course.tell(Event::Offset(Some(5)));
        for batch in batches {
            if matches!(course.tell(reply(batch)), Action::Settle { .. }) {
                course.tell(Event::Done);
            }
        }
        course.tell(Event::Cancelled(false));
        course.tell(Event::Request { pid: 1, nanos: 1 });
        course.tell(reply(r#"{"message_id":9}"#));
        course.tell(Event::Done);
        course.tell(Event::Done);
        course.tell(Event::Cancelled(false));
        let call = call_of(course.tell(Event::Remaining(Span { secs: 60, nanos: 0 })));
        assert_eq!(call.body["offset"].as_i64(), offset);
    }
}

#[test]
fn the_first_poll_with_an_answer_counts() {
    let mut course = Course::polling();
    course.tell(reply(r#"[{"update_id":10}]"#));
    course.tell(Event::Cancelled(false));
    course.tell(Event::Done);
    course.tell(Event::Cancelled(false));
    course.tell(Event::Remaining(Span { secs: 5, nanos: 0 }));
    course.tell(reply(&format!("[{WORDS}]")));
    course.tell(Event::Cancelled(false));
    course.tell(Event::Done);
    course.tell(Event::Cancelled(false));
    assert_eq!(answer(course.tell(Event::Done)), "Later");
}

#[test]
fn a_step_can_be_taken_without_asking_whether_it_fits() {
    let (session, _) = Session::start(question());
    let (_, action) = session.advance(Event::Cancelled(false));
    assert!(matches!(action, Action::FindChat));
    let (session, _) = Session::start(question());
    let (_, action) = session.advance(Event::Done);
    assert!(failed(&action));
}
