//! The texts that a question's Telegram message shows.

use crate::text::{
    all_white_space, decimal, decimal_goes_on_with_its_last_digit, decimal_text,
    lemma_trimmed_after, lemma_trimmed_end_skips_white_space, lemma_trimmed_skips_white_space,
    lemma_trimming_commutes, optional_view, strip_prefix, trim, trim_start, trimmed, trimmed_end,
    trimmed_start,
};
use vstd::prelude::*;

verus! {

/// Marks a message that needs an answer.
pub const ACTION_HEADER: &'static str = "🚨 Action needed";

/// Marks a message that was answered.
pub const ANSWERED_HEADER: &'static str = "🟢 Action answered";

/// Marks a message that nobody answered in time.
pub const EXPIRED_HEADER: &'static str = "🟠 Action expired";

/// Marks a message whose question was withdrawn.
pub const CANCELLED_HEADER: &'static str = "🟠 Action cancelled";

/// Separates what is new in a message from the question that it was sent with.
pub const MESSAGE_DIVIDER: &'static str = "──────────";

/// How many characters of an answer a message repeats.
pub const MAX_PREVIEW_CHARS: usize = 512;

/// A status marker, the title of the conversation if there is one, and what the message has
/// to say, with an empty line between them.
pub open spec fn status_view(
    header: Seq<char>,
    title: Option<Seq<char>>,
    body: Seq<char>,
) -> Seq<char> {
    match title {
        Some(title) => header + "\n\n"@ + title + "\n\n"@ + body,
        None => header + "\n\n"@ + body,
    }
}

/// The message that asks `question`.
pub open spec fn pending_view(question: Seq<char>, title: Option<Seq<char>>) -> Seq<char> {
    status_view(ACTION_HEADER@, title, question)
}

/// `news`, and below the divider the question that it is about.
pub open spec fn above_question(news: Seq<char>, question: Seq<char>) -> Seq<char> {
    news + "\n\n"@ + MESSAGE_DIVIDER@ + "\n"@ + question
}

/// As much of an answer as a message repeats: all of it, or its start and an ellipsis.
pub open spec fn preview_view(answer: Seq<char>) -> Seq<char> {
    if answer.len() <= MAX_PREVIEW_CHARS {
        answer
    } else {
        answer.take(MAX_PREVIEW_CHARS - 1) + "…"@
    }
}

/// The message once `question` has been answered.
pub open spec fn answered_view(
    question: Seq<char>,
    title: Option<Seq<char>>,
    answer: Seq<char>,
) -> Seq<char> {
    status_view(
        ANSWERED_HEADER@,
        title,
        above_question("You chose: "@ + preview_view(answer), question),
    )
}

/// The message once nobody has answered `question` for as long as `wait` says.
pub open spec fn expired_view(
    question: Seq<char>,
    title: Option<Seq<char>>,
    wait: Seq<char>,
) -> Seq<char> {
    status_view(
        EXPIRED_HEADER@,
        title,
        above_question(
            "Codex stopped waiting after "@ + wait + ". Go back to Codex to try again."@,
            question,
        ),
    )
}

/// The message once `question` has been withdrawn.
pub open spec fn cancelled_view(question: Seq<char>, title: Option<Seq<char>>) -> Seq<char> {
    status_view(
        CANCELLED_HEADER@,
        title,
        above_question(
            "Codex moved on, so this question is no longer active. Go back to Codex to try again."@,
            question,
        ),
    )
}

/// The message of a question whose asker went away without closing it.
pub open spec fn abandoned_view() -> Seq<char> {
    "🟠 Action expired\n\nCodex is no longer waiting. Nothing was approved.\n\nGo back to Codex to try again."@
}

/// What a notice says besides the marker: `message` without outer white space, and without
/// the marker if the caller wrote one already.
pub open spec fn unmarked_view(message: Seq<char>) -> Seq<char> {
    if ACTION_HEADER@.is_prefix_of(trimmed(message)) {
        trimmed_start(trimmed(message).skip(ACTION_HEADER@.len() as int))
    } else {
        trimmed(message)
    }
}

/// The notice that something needs the user.
pub open spec fn action_required_view(title: Seq<char>, message: Seq<char>) -> Seq<char> {
    status_view(ACTION_HEADER@, Some(title), unmarked_view(message))
}

/// `value` and `unit`, which gets an s unless there is one of it.
pub open spec fn plural_view(value: nat, unit: Seq<char>) -> Seq<char> {
    decimal(value) + " "@ + unit + (if value == 1 {
        Seq::empty()
    } else {
        "s"@
    })
}

/// A time in the largest of hours, minutes and seconds that it is a whole number of.
pub open spec fn wait_view(seconds: nat) -> Seq<char> {
    if seconds % 3600 == 0 {
        plural_view(seconds / 3600, "hour"@)
    } else if seconds % 60 == 0 {
        plural_view(seconds / 60, "minute"@)
    } else {
        plural_view(seconds, "second"@)
    }
}

/// The parts of a message are whole, in order, and an empty line apart: without a title, the
/// marker and what the message says; with one, the marker and the title as without one, and then
/// what the message says.
pub proof fn messages_keep_their_parts(header: Seq<char>, title: Seq<char>, body: Seq<char>)
    ensures
        status_view(header, None, body) == header + seq!['\n', '\n'] + body,
        status_view(header, Some(title), body) == status_view(
            status_view(header, None, title),
            None,
            body,
        ),
{
    reveal_strlit("\n\n");
    assert("\n\n"@ =~= seq!['\n', '\n']);
    assert(status_view(header, None, body) =~= header + seq!['\n', '\n'] + body);
    assert(status_view(header, Some(title), body) =~= status_view(
        status_view(header, None, title),
        None,
        body,
    ));
}

/// A message that asks shows that an action is needed, the title, and the whole question.
pub proof fn a_message_that_asks_shows_the_question(question: Seq<char>, title: Option<Seq<char>>)
    ensures
        pending_view(question, title) == status_view("🚨 Action needed"@, title, question),
{
}

/// A message whose question is over shows how it ended, the title, what came of it, and below a
/// line the whole question. What came of it is the answer as far as it is repeated, how long was
/// waited, or that the question was withdrawn.
pub proof fn a_closed_message_shows_how_it_ended(
    question: Seq<char>,
    title: Option<Seq<char>>,
    detail: Seq<char>,
)
    ensures
        answered_view(question, title, detail) == status_view(
            "🟢 Action answered"@,
            title,
            "You chose: "@ + preview_view(detail) + ("\n\n──────────\n"@ + question),
        ),
        expired_view(question, title, detail) == status_view(
            "🟠 Action expired"@,
            title,
            "Codex stopped waiting after "@ + detail + ". Go back to Codex to try again."@ + (
            "\n\n──────────\n"@ + question),
        ),
        cancelled_view(question, title) == status_view(
            "🟠 Action cancelled"@,
            title,
            "Codex moved on, so this question is no longer active. Go back to Codex to try again."@
                + ("\n\n──────────\n"@ + question),
        ),
{
    lemma_question_stands_below("You chose: "@ + preview_view(detail), question);
    lemma_question_stands_below(
        "Codex stopped waiting after "@ + detail + ". Go back to Codex to try again."@,
        question,
    );
    lemma_question_stands_below(
        "Codex moved on, so this question is no longer active. Go back to Codex to try again."@,
        question,
    );
}

proof fn lemma_question_stands_below(news: Seq<char>, question: Seq<char>)
    ensures
        above_question(news, question) == news + ("\n\n──────────\n"@ + question),
{
    reveal_strlit("\n\n──────────\n");
    reveal_strlit("\n\n");
    reveal_strlit("──────────");
    reveal_strlit("\n");
    assert("\n\n──────────\n"@ =~= "\n\n"@ + "──────────"@ + "\n"@);
    assert(above_question(news, question) =~= news + ("\n\n──────────\n"@ + question));
}

/// An answer of up to 512 characters is repeated whole; of a longer one the first 511 are
/// repeated, and an ellipsis says that there are more.
pub proof fn previews_keep_the_start_of_an_answer(answer: Seq<char>)
    ensures
        answer.len() <= 512 ==> preview_view(answer) == answer,
        answer.len() > 512 ==> {
            &&& preview_view(answer).len() == 512
            &&& preview_view(answer)[511] == '…'
            &&& forall|i: int| 0 <= i < 511 ==> #[trigger] preview_view(answer)[i] == answer[i]
        },
{
    reveal_strlit("…");
}

/// A notice that does not start with the marker, apart from white space, is kept whole without
/// outer white space.
pub proof fn notices_are_kept(title: Seq<char>, message: Seq<char>)
    requires
        !"🚨 Action needed"@.is_prefix_of(trimmed(message)),
    ensures
        action_required_view(title, message) == status_view(
            "🚨 Action needed"@,
            Some(title),
            trimmed(message),
        ),
{
}

/// There is an s behind the unit exactly if there is not one of it.
pub proof fn units_are_counted(value: nat, unit: Seq<char>)
    ensures
        plural_view(1, unit) == "1 "@ + unit,
        value != 1 ==> plural_view(value, unit) == decimal(value) + seq![' '] + unit.push('s'),
{
    reveal_strlit("1 ");
    reveal_strlit(" ");
    reveal_strlit("s");
    reveal_strlit("0123456789");
    decimal_goes_on_with_its_last_digit(0, 1);
    assert(plural_view(1, unit) =~= "1 "@ + unit);
    if value != 1 {
        assert(plural_view(value, unit) =~= decimal(value) + seq![' '] + unit.push('s'));
    }
}

/// A wait is told in hours if it is whole hours, else in minutes if it is whole minutes, and
/// else in seconds.
pub proof fn waits_are_told_in_the_largest_unit(count: nat)
    ensures
        wait_view(3600 * count) == plural_view(count, "hour"@),
        count % 60 != 0 ==> wait_view(60 * count) == plural_view(count, "minute"@),
        count % 60 != 0 ==> wait_view(count) == plural_view(count, "second"@),
{
    assert((3600 * count) % 3600 == 0 && (3600 * count) / 3600 == count);
    if count % 60 != 0 {
        assert((60 * count) % 60 == 0 && (60 * count) / 60 == count);
        assert((60 * count) % 3600 != 0);
        assert(count % 3600 != 0);
    }
}

/// The marker is not doubled: a message that already starts with it, with whatever white space
/// before it, after it and at the end, makes the notice that asks what is left of the message
/// without outer white space, and so the same notice as the message without the marker.
pub proof fn marker_is_not_doubled(
    title: Seq<char>,
    before: Seq<char>,
    gap: Seq<char>,
    message: Seq<char>,
    after: Seq<char>,
)
    requires
        all_white_space(before),
        all_white_space(gap),
        all_white_space(after),
    ensures
        action_required_view(title, before + ACTION_HEADER@ + gap + message + after)
            == pending_view(trimmed(message), Some(title)),
        !ACTION_HEADER@.is_prefix_of(trimmed(message)) ==> action_required_view(
            title,
            before + ACTION_HEADER@ + gap + message + after,
        ) == action_required_view(title, message),
{
    let header = ACTION_HEADER@;
    let rest = gap + (message + after);
    let marked = before + header + gap + message + after;
    reveal_strlit("🚨 Action needed");
    assert(header.first() == '🚨');
    assert(header.last() == 'd');
    assert(marked =~= before + (header + rest));
    lemma_trimmed_skips_white_space(before, header + rest);
    lemma_trimmed_after(header, rest);
    assert(header.is_prefix_of(trimmed(marked)));
    assert(trimmed(marked).skip(header.len() as int) =~= trimmed_end(rest));
    lemma_trimming_commutes(rest);
    lemma_trimmed_skips_white_space(gap, message + after);
    lemma_trimming_commutes(message + after);
    lemma_trimmed_end_skips_white_space(message, after);
    lemma_trimming_commutes(message);
}

/// A status marker, the title of the conversation if there is one, and what the message has
/// to say, with an empty line between them.
pub fn status_text(header: &str, title: Option<&str>, body: &str) -> (text: String)
    ensures
        text@ == status_view(header@, optional_view(title), body@),
{
    let mut text: String = header.to_owned();
    text.append("\n\n");
    if let Some(title) = title {
        text.append(title);
        text.append("\n\n");
    }
    text.append(body);
    text
}

/// The notice that something needs the user: `message` under the marker, which is not
/// repeated if the caller wrote it already.
pub fn action_required_text_with_title(title: &str, message: &str) -> (text: String)
    ensures
        text@ == action_required_view(title@, message@),
{
    let message: &str = trim(message);
    let body: &str = match strip_prefix(message, ACTION_HEADER) {
        Some(rest) => trim_start(rest),
        None => message,
    };
    status_text(ACTION_HEADER, Some(title), body)
}

/// The message that asks `question`.
pub fn pending_text(question: &str, conversation_title: Option<&str>) -> (text: String)
    ensures
        text@ == pending_view(question@, optional_view(conversation_title)),
{
    status_text(ACTION_HEADER, conversation_title, question)
}

fn news_above_question(news: String, question: &str) -> (text: String)
    ensures
        text@ == above_question(news@, question@),
{
    let mut text: String = news;
    text.append("\n\n");
    text.append(MESSAGE_DIVIDER);
    text.append("\n");
    text.append(question);
    text
}

/// The message once `question` has been answered: the answer, and below the divider the
/// question.
pub fn answered_text(question: &str, conversation_title: Option<&str>, answer: &str) -> (text:
    String)
    ensures
        text@ == answered_view(question@, optional_view(conversation_title), answer@),
{
    let mut news: String = "You chose: ".to_owned();
    news.append(answer_preview(answer).as_str());
    status_text(
        ANSWERED_HEADER,
        conversation_title,
        news_above_question(news, question).as_str(),
    )
}

/// As much of an answer as a message repeats: all of it, or its start and an ellipsis.
pub fn answer_preview(answer: &str) -> (preview: String)
    ensures
        preview@ == preview_view(answer@),
        preview@.len() <= MAX_PREVIEW_CHARS,
{
    proof {
        reveal_strlit("…");
    }
    if answer.unicode_len() <= MAX_PREVIEW_CHARS {
        answer.to_owned()
    } else {
        let mut preview: String = answer.substring_char(0, MAX_PREVIEW_CHARS - 1).to_owned();
        assert(preview@ =~= answer@.take(MAX_PREVIEW_CHARS - 1));
        preview.append("…");
        preview
    }
}

/// The message once nobody has answered `question` for as long as `wait` says.
pub fn expired_text(question: &str, conversation_title: Option<&str>, wait: &str) -> (text: String)
    ensures
        text@ == expired_view(question@, optional_view(conversation_title), wait@),
{
    let mut news: String = "Codex stopped waiting after ".to_owned();
    news.append(wait);
    news.append(". Go back to Codex to try again.");
    status_text(
        EXPIRED_HEADER,
        conversation_title,
        news_above_question(news, question).as_str(),
    )
}

/// The message once `question` has been withdrawn.
pub fn cancelled_text(question: &str, conversation_title: Option<&str>) -> (text: String)
    ensures
        text@ == cancelled_view(question@, optional_view(conversation_title)),
{
    let news: String =
        "Codex moved on, so this question is no longer active. Go back to Codex to try again.".to_owned();
    status_text(
        CANCELLED_HEADER,
        conversation_title,
        news_above_question(news, question).as_str(),
    )
}

/// The message of a question whose asker went away without closing it.
pub fn abandoned_text() -> (text: &'static str)
    ensures
        text@ == abandoned_view(),
{
    "🟠 Action expired\n\nCodex is no longer waiting. Nothing was approved.\n\nGo back to Codex to try again."
}

/// A time in the largest of hours, minutes and seconds that it is a whole number of.
pub fn wait_label(seconds: u64) -> (label: String)
    ensures
        label@ == wait_view(seconds as nat),
{
    if seconds % 3600 == 0 {
        plural(seconds / 3600, "hour")
    } else if seconds % 60 == 0 {
        plural(seconds / 60, "minute")
    } else {
        plural(seconds, "second")
    }
}

/// `value` and `unit`, which gets an s unless there is one of it.
pub fn plural(value: u64, unit: &str) -> (text: String)
    ensures
        text@ == plural_view(value as nat, unit@),
{
    let mut text: String = decimal_text(value);
    text.append(" ");
    text.append(unit);
    if value != 1 {
        text.append("s");
    }
    assert(text@ =~= plural_view(value as nat, unit@));
    text
}

} // verus!
