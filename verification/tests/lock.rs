use serde_json::Value;
use talbot::lock::{
    abandoned_message_target, acquire, claim_lock, is_stale, lock_owner_pid, mark_abandoned,
    record_question, recorded_pid, recorded_target, LockEvent, LockStep, Span,
};
use talbot::message::abandoned_text;

fn json(text: &str) -> Value {
    serde_json::from_str(text).unwrap()
}

#[test]
fn reads_legacy_and_structured_lock_owners() {
    assert_eq!(lock_owner_pid("42\n"), Some(42));
    assert_eq!(
        lock_owner_pid(r#"{"pid":42,"chat_id":"7","message_id":9}"#),
        Some(42)
    );
    assert_eq!(lock_owner_pid("not a lock"), None);
}

#[test]
fn recovers_an_abandoned_question_target() {
    assert_eq!(
        abandoned_message_target(r#"{"pid":42,"chat_id":"7","message_id":9}"#),
        Some(("7".to_string(), 9))
    );
    assert!(abandoned_message_target("42").is_none());
    assert!(abandoned_text().starts_with("🟠 Action expired"));
    assert!(abandoned_text().contains("Nothing was approved"));
}

#[test]
fn odd_lock_files_name_nobody() {
    for contents in [
        "", "-1", "4294967296", r#"{"pid":-1}"#, r#"{"pid":4294967296}"#, r#"{"pid":"42"}"#,
        r#"{"pid":1.5}"#, r#"{"owner":42}"#, "[42]", "\"42\"",
    ] {
        assert_eq!(lock_owner_pid(contents), None);
    }
    assert_eq!(lock_owner_pid(" +7 "), Some(7));
    assert_eq!(lock_owner_pid(r#" { "pid": 4294967295 } "#), Some(u32::MAX));
}

#[test]
fn what_a_lock_file_holds_reads_back() {
    for pid in [0, 42, u32::MAX] {
        assert_eq!(claim_lock(pid), format!("{pid}\n"));
        assert_eq!(lock_owner_pid(&claim_lock(pid)), Some(pid));
        for chat in ["7", "", "-100\"\\\n{", "ä🟠"] {
            for message_id in [9, i64::MIN, i64::MAX] {
                let contents = record_question(pid, chat, message_id);
                assert_eq!(lock_owner_pid(&contents), Some(pid));
                assert_eq!(
                    abandoned_message_target(&contents),
                    Some((chat.to_string(), message_id))
                );
            }
        }
    }
    assert_eq!(record_question(42, "7", 9), r#"{"chat_id":"7","message_id":9,"pid":42}"#);
}

#[test]
fn reads_records() {
    let record = json(r#"{"pid":42,"chat_id":"7","message_id":-9}"#);
    assert_eq!(recorded_pid(&record), Some(42));
    assert_eq!(recorded_target(&record), Some(("7".to_string(), -9)));
    assert_eq!(recorded_target(&json(r#"{"chat_id":7,"message_id":9}"#)), None);
    assert_eq!(recorded_target(&json(r#"{"chat_id":"7"}"#)), None);
    assert_eq!(recorded_pid(&json("42")), None);
}

#[test]
fn closes_what_an_asker_left_behind() {
    let call = mark_abandoned(Some(&record_question(42, "7", 9))).unwrap();
    assert_eq!(call.method.name(), "editMessageText");
    assert_eq!(call.body["chat_id"].as_str(), Some("7"));
    assert_eq!(call.body["message_id"].as_i64(), Some(9));
    assert_eq!(call.body["text"].as_str(), Some(abandoned_text()));
    assert!(mark_abandoned(Some("42\n")).is_none());
    assert!(mark_abandoned(None).is_none());
}

#[test]
fn a_lock_is_stale_without_its_owner_or_after_the_longest_wait() {
    let age = |secs, nanos| Some(Span { secs, nanos });
    assert!(is_stale(Some(false), None));
    assert!(is_stale(Some(false), age(0, 0)));
    assert!(!is_stale(Some(true), age(7500, 0)));
    assert!(is_stale(Some(true), age(7500, 1)));
    assert!(is_stale(None, age(7501, 0)));
    assert!(!is_stale(None, age(7499, 999_999_999)));
    assert!(!is_stale(None, None));
    assert!(!is_stale(Some(true), None));
}

#[test]
fn a_lock_is_cleared_once_and_only_if_stale() {
    assert_eq!(acquire(0, LockEvent::Created), LockStep::Held);
    assert_eq!(acquire(1, LockEvent::Created), LockStep::Held);
    assert_eq!(acquire(0, LockEvent::Exists), LockStep::Judge);
    assert_eq!(acquire(0, LockEvent::Judged { stale: true }), LockStep::Clear);
    assert_eq!(acquire(0, LockEvent::Judged { stale: false }), LockStep::Busy);
    assert_eq!(acquire(1, LockEvent::Exists), LockStep::Busy);
    assert_eq!(acquire(1, LockEvent::Judged { stale: true }), LockStep::Busy);
    assert_eq!(acquire(0, LockEvent::Failed), LockStep::Fail);
}
