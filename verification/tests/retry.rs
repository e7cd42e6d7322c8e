use talbot::retry::{call_question_edit_with_retry, EditStep};

#[test]
fn tries_three_times_with_growing_pauses() {
    let failure = Some("connection reset");
    assert_eq!(call_question_edit_with_retry(0, failure), EditStep::RetryAfter(300));
    assert_eq!(call_question_edit_with_retry(1, failure), EditStep::RetryAfter(600));
    assert_eq!(call_question_edit_with_retry(2, failure), EditStep::GiveUp);
}

#[test]
fn is_done_once_the_message_is_as_it_should_be() {
    for attempt in 0..3 {
        assert_eq!(call_question_edit_with_retry(attempt, None), EditStep::Done);
        assert_eq!(
            call_question_edit_with_retry(attempt, Some("Bad Request: message is not modified")),
            EditStep::Done
        );
    }
}
