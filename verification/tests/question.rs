use talbot::error::AskError;
use talbot::question::{Question, DEFAULT_TIMEOUT_SECS, MAX_TIMEOUT_SECS};

fn texts(texts: &[&str]) -> Vec<String> {
    texts.iter().map(|text| text.to_string()).collect()
}

fn refusal(question: &str, choices: &[&str], timeout_secs: u64) -> AskError {
    Question::check(question, &texts(choices), timeout_secs, None).unwrap_err()
}

#[test]
fn accepts_what_fits() {
    let title = Some("Finance Page".to_string());
    let question = Question::check(" Deploy?\n", &texts(&[" Yes ", "No"]), 30, title).unwrap();
    assert_eq!(question.text, "Deploy?");
    assert_eq!(question.choices, texts(&["Yes", "No"]));
    assert_eq!(question.timeout_secs, 30);
    assert_eq!(question.title(), Some("Finance Page"));
    let longest = "ä".repeat(3000);
    let choice = "ä".repeat(64);
    let choices = [choice.as_str(), "2", "3", "4", "5", "6", "7", "8"];
    assert!(Question::check(&longest, &texts(&choices), MAX_TIMEOUT_SECS, None).is_ok());
}

#[test]
fn refuses_what_does_not_fit() {
    let two = ["Yes", "No"];
    assert_eq!(refusal("", &two, 30), AskError::EmptyQuestion);
    assert_eq!(refusal(" \u{3000}\n", &two, 30), AskError::EmptyQuestion);
    assert_eq!(refusal(&"ä".repeat(3001), &two, 30), AskError::LongQuestion);
    assert_eq!(refusal("Deploy?", &["Yes"], 30), AskError::ChoiceCount);
    assert_eq!(refusal("Deploy?", &["x"; 9], 30), AskError::ChoiceCount);
    assert_eq!(refusal("Deploy?", &two, 29), AskError::Timeout);
    assert_eq!(refusal("Deploy?", &two, 7201), AskError::Timeout);
    assert_eq!(refusal("Deploy?", &["Yes", " "], 30), AskError::ChoiceLength);
    assert_eq!(refusal("Deploy?", &["Yes", &"ä".repeat(65)], 30), AskError::ChoiceLength);
}

#[test]
fn names_the_first_thing_that_does_not_fit() {
    assert_eq!(refusal("", &[""], 0), AskError::EmptyQuestion);
    assert_eq!(refusal("Deploy?", &[""], 0), AskError::ChoiceCount);
    assert_eq!(refusal("Deploy?", &["", ""], 0), AskError::Timeout);
}

#[test]
fn waits_for_two_hours_at_most() {
    assert_eq!(DEFAULT_TIMEOUT_SECS, 7200);
    assert_eq!(MAX_TIMEOUT_SECS, 7200);
}

#[test]
fn says_what_went_wrong() {
    let cases = [
        (AskError::EmptyQuestion, "question must not be empty"),
        (AskError::LongQuestion, "question must be at most 3000 characters"),
        (AskError::ChoiceCount, "choices must contain between 2 and 8 items"),
        (AskError::Timeout, "timeout_seconds must be between 30 and 7200"),
        (AskError::ChoiceLength, "each choice must contain between 1 and 64 characters"),
        (AskError::CancelledBeforeSend, "Telegram question was cancelled before it was sent"),
        (AskError::NotPrivate, "interactive questions require a private Telegram chat"),
        (AskError::MissingChatId, "getChat response is missing a numeric id"),
        (AskError::Busy, "another Telegram question is already waiting for an answer"),
        (AskError::UpdatesNotArray, "getUpdates response is not an array"),
        (AskError::TooManyUpdates, "too many pending Telegram updates; send the question again"),
        (AskError::MissingMessageId, "sendMessage response is missing message_id"),
        (
            AskError::Expired { timeout_secs: 7200, closed: true },
            "Telegram question expired after 2 hours; the buttons were removed. Do not assume an answer or continue work that depends on one",
        ),
        (
            AskError::Expired { timeout_secs: 90, closed: false },
            "Telegram question expired after 90 seconds, but its Telegram message could not be updated. The request is inactive; do not assume an answer or continue work that depends on one",
        ),
        (
            AskError::Cancelled { closed: true },
            "Telegram question was cancelled because Codex stopped waiting; the buttons were removed",
        ),
        (
            AskError::Cancelled { closed: false },
            "Telegram question was cancelled because Codex stopped waiting, but its Telegram message could not be updated. The request is inactive",
        ),
    ];
    for (error, message) in cases {
        assert_eq!(error.message(), message);
    }
}
