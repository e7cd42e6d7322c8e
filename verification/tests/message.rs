use talbot::message::{
    abandoned_text, action_required_text_with_title, answer_preview, answered_text, cancelled_text,
    expired_text, pending_text, plural, status_text, wait_label, MAX_PREVIEW_CHARS,
};

#[test]
fn formats_waits_for_expiry_messages() {
    assert_eq!(wait_label(30), "30 seconds");
    assert_eq!(wait_label(60), "1 minute");
    assert_eq!(wait_label(15 * 60), "15 minutes");
    assert_eq!(wait_label(2 * 60 * 60), "2 hours");
}

#[test]
fn labels_the_shortest_and_the_odd_waits() {
    assert_eq!(wait_label(0), "0 hours");
    assert_eq!(wait_label(1), "1 second");
    assert_eq!(wait_label(61), "61 seconds");
    assert_eq!(wait_label(3600), "1 hour");
    assert_eq!(wait_label(u64::MAX), "18446744073709551615 seconds");
}

#[test]
fn one_of_a_unit_has_no_s() {
    assert_eq!(plural(1, "hour"), "1 hour");
    assert_eq!(plural(0, "hour"), "0 hours");
    assert_eq!(plural(12, "minute"), "12 minutes");
}

#[test]
fn marks_messages_that_need_an_answer() {
    assert_eq!(
        pending_text("Deploy the update now?", None),
        "🚨 Action needed\n\nDeploy the update now?"
    );
    assert_eq!(
        action_required_text_with_title("Finance Page", "🚨 Action needed\n\nAlready marked"),
        "🚨 Action needed\n\nFinance Page\n\nAlready marked"
    );
}

#[test]
fn a_marked_and_an_unmarked_message_make_the_same_notice() {
    let unmarked = action_required_text_with_title("Finance Page", "  Check the preview.\n");
    assert_eq!(unmarked, "🚨 Action needed\n\nFinance Page\n\nCheck the preview.");
    assert_eq!(
        action_required_text_with_title("Finance Page", "🚨 Action needed\n\n  Check the preview.\n"),
        unmarked
    );
    assert_eq!(
        action_required_text_with_title("Finance Page", "\u{a0}🚨 Action neededat once\u{3000}"),
        "🚨 Action needed\n\nFinance Page\n\nat once"
    );
    for marked in [
        "🚨 Action needed Check the preview.",
        "\t🚨 Action needed\r\n\tCheck the preview.\u{2003}",
        "🚨 Action needed\n\n\n\nCheck the preview.\n",
    ] {
        assert_eq!(action_required_text_with_title("Finance Page", marked), unmarked);
    }
}

#[test]
fn puts_the_conversation_title_after_the_action_marker() {
    assert_eq!(
        pending_text("Deploy the update now?", Some("Finance Page")),
        "🚨 Action needed\n\nFinance Page\n\nDeploy the update now?"
    );
}

#[test]
fn turns_answered_messages_green() {
    assert_eq!(
        answered_text("Deploy the update now?", None, "Yes"),
        "🟢 Action answered\n\nYou chose: Yes\n\n──────────\nDeploy the update now?"
    );
    assert_eq!(
        answered_text("Deploy the update now?", Some("Finance Page"), "Yes"),
        "🟢 Action answered\n\nFinance Page\n\nYou chose: Yes\n\n──────────\nDeploy the update now?"
    );
}

#[test]
fn shortens_long_answers() {
    let longest = "é".repeat(MAX_PREVIEW_CHARS);
    assert_eq!(answer_preview(&longest), longest);
    assert_eq!(
        answer_preview(&"é".repeat(MAX_PREVIEW_CHARS + 1)),
        format!("{}…", "é".repeat(511))
    );
    assert_eq!(answer_preview(""), "");
}

#[test]
fn expired_message_is_unambiguous() {
    assert_eq!(
        expired_text("Deploy now?", None, "2 hours"),
        "🟠 Action expired\n\nCodex stopped waiting after 2 hours. Go back to Codex to try again.\n\n──────────\nDeploy now?"
    );
    assert_eq!(
        expired_text("Deploy now?", Some("Finance Page"), "2 hours"),
        "🟠 Action expired\n\nFinance Page\n\nCodex stopped waiting after 2 hours. Go back to Codex to try again.\n\n──────────\nDeploy now?"
    );
}

#[test]
fn cancelled_message_closes_the_old_action() {
    assert_eq!(
        cancelled_text("Deploy now?", Some("Finance Page")),
        "🟠 Action cancelled\n\nFinance Page\n\nCodex moved on, so this question is no longer active. Go back to Codex to try again.\n\n──────────\nDeploy now?"
    );
}

#[test]
fn status_text_sets_its_parts_apart() {
    assert_eq!(status_text("Marker", None, ""), "Marker\n\n");
    assert_eq!(status_text("Marker", Some("Title"), "Body"), "Marker\n\nTitle\n\nBody");
}

#[test]
fn an_abandoned_question_is_closed_without_an_approval() {
    assert_eq!(
        abandoned_text(),
        "🟠 Action expired\n\nCodex is no longer waiting. Nothing was approved.\n\nGo back to Codex to try again."
    );
}
