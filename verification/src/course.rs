//! What every session keeps to, whatever comes of its actions.
//!
//! A course of a session is what its events make of it. The laws here speak of all courses.

use crate::call::{
    answer_callback_view, edit_question_view, get_chat_view, get_updates_view, request_id_view,
    send_question_view, Method, UPDATE_LIMIT,
};
use crate::error::AskError;
use crate::json::{as_list, as_signed, member, Json};
use crate::lock::Span;
use crate::message::{answered_view, cancelled_view, expired_view, wait_view};
use crate::question::QuestionView;
use crate::session::{
    dismissals_view, expire, offset_after, poll_secs, show_answer, started, step, withdraw,
    ActionView, EventView, FactsView, OutcomeView, PhaseView, SessionView, POLL_TIMEOUT_SECS,
};
use crate::update::{
    callback_is_from, first_answer_view, message_is_from, parsed_answer,
    the_first_answer_is_the_users, AnswerView,
};
use vstd::prelude::*;

verus! {

/// A session after its first `n` events, and the action that it then asks for.
pub open spec fn course(question: QuestionView, events: spec_fn(nat) -> EventView, n: nat) -> (
    SessionView,
    ActionView,
)
    decreases n,
{
    if n == 0 {
        (started(question), ActionView::CheckCancelled)
    } else {
        step(course(question, events, (n - 1) as nat).0, events((n - 1) as nat))
    }
}

/// Whether an action sends a question.
pub open spec fn sends(action: ActionView) -> bool {
    action matches ActionView::Call(call) && call.method == Method::SendMessage
}

/// Whether an action asks for updates.
pub open spec fn requests_updates(action: ActionView) -> bool {
    action matches ActionView::Call(call) && call.method == Method::GetUpdates
}

/// Whether an action ends a session with an answer.
pub open spec fn answers(action: ActionView) -> bool {
    action matches ActionView::Finish(OutcomeView::Answered(_))
}

/// Whether a session has asked for its question to be sent.
pub open spec fn past_sending(phase: PhaseView) -> bool {
    match phase {
        PhaseView::Starting => false,
        PhaseView::FindingChat => false,
        PhaseView::CheckingChat => false,
        PhaseView::Locking => false,
        PhaseView::ReadingOffset => false,
        PhaseView::Draining { .. } => false,
        PhaseView::Settling { .. } => false,
        PhaseView::Ready => false,
        PhaseView::Naming => false,
        _ => true,
    }
}

/// Whether a session is over, or only waits for its message to show that it was cancelled.
pub open spec fn winding_up(phase: PhaseView) -> bool {
    phase is ClosingCancelled || phase is Finished
}

/// Whether a session has taken the lock and has not finished.
pub open spec fn holds_lock(phase: PhaseView) -> bool {
    match phase {
        PhaseView::Starting => false,
        PhaseView::FindingChat => false,
        PhaseView::CheckingChat => false,
        PhaseView::Locking => false,
        PhaseView::Finished => false,
        _ => true,
    }
}

/// The event with this number told the session to ask in `chat`.
pub open spec fn chat_was_named(
    question: QuestionView,
    events: spec_fn(nat) -> EventView,
    k: nat,
    chat: Seq<char>,
) -> bool {
    &&& course(question, events, k).1 is FindChat
    &&& events(k) == EventView::Chat(chat)
}

/// The session asked what kind of chat `chat` is, and the event with this number told it that
/// it is the private one of the user.
pub open spec fn chat_was_checked(
    question: QuestionView,
    events: spec_fn(nat) -> EventView,
    k: nat,
    chat: Seq<char>,
    user_id: i64,
) -> bool {
    &&& course(question, events, k).0.phase is CheckingChat
    &&& course(question, events, k).1 == ActionView::Call(get_chat_view(chat))
    &&& events(k) matches EventView::Reply(details) && member(details, "type"@) == Some(
        Json::Text("private"@),
    ) && member(details, "id"@) == Some(Json::Integer(user_id as int))
}

/// The event with this number told the session that it has the lock.
pub open spec fn lock_was_taken(question: QuestionView, events: spec_fn(nat) -> EventView, k: nat) -> bool {
    &&& course(question, events, k).1 is TakeLock
    &&& events(k) is Done
}

/// The old updates that the event with this number brought, if it brought a batch of them.
pub open spec fn old_updates(
    question: QuestionView,
    events: spec_fn(nat) -> EventView,
    k: nat,
) -> Option<Seq<Json>> {
    match (course(question, events, k).0.phase, events(k)) {
        (PhaseView::Draining { .. }, EventView::Reply(reply)) => as_list(reply),
        _ => None,
    }
}

/// The offset after the old updates that the event with this number brought, if it brought a
/// batch of them that has one.
pub open spec fn old_offset(
    question: QuestionView,
    events: spec_fn(nat) -> EventView,
    k: nat,
) -> Option<i64> {
    match old_updates(question, events, k) {
        Some(updates) => offset_after(updates),
        None => None,
    }
}

/// The event with this number was a batch of old updates that was not full, so that there
/// were no others.
pub open spec fn old_updates_ended(
    question: QuestionView,
    events: spec_fn(nat) -> EventView,
    k: nat,
) -> bool {
    old_updates(question, events, k) matches Some(updates) && updates.len() < UPDATE_LIMIT
}

/// The event with this number told the session that updates were read up to `offset` before.
pub open spec fn offset_was_read(
    question: QuestionView,
    events: spec_fn(nat) -> EventView,
    k: nat,
    offset: Option<i64>,
) -> bool {
    &&& course(question, events, k).0.phase is ReadingOffset
    &&& events(k) == EventView::Offset(offset)
}

/// Whether `offset` is the one after the last batch of old updates that has one, among the
/// first `n` events, or the one that was stored before if no batch has one.
pub open spec fn follows_old_updates(
    question: QuestionView,
    events: spec_fn(nat) -> EventView,
    n: nat,
    offset: Option<i64>,
) -> bool {
    ||| exists|k: nat|
        k < n && #[trigger] old_offset(question, events, k) is Some && offset == old_offset(
            question,
            events,
            k,
        ) && forall|j: nat| k < j < n ==> #[trigger] old_offset(question, events, j) is None
    ||| (forall|j: nat| j < n ==> #[trigger] old_offset(question, events, j) is None) && exists|
        k: nat,
    |
        k < n && #[trigger] offset_was_read(question, events, k, offset)
}

/// The updates that the event with this number brought, if it was a poll that brought some.
pub open spec fn poll_updates(
    question: QuestionView,
    events: spec_fn(nat) -> EventView,
    k: nat,
) -> Option<Seq<Json>> {
    match (course(question, events, k).0.phase, events(k)) {
        (PhaseView::Polling, EventView::Reply(reply)) => as_list(reply),
        _ => None,
    }
}

/// The offset after the updates that the event with this number brought, if it was a poll that
/// brought some and they have one.
pub open spec fn poll_offset(
    question: QuestionView,
    events: spec_fn(nat) -> EventView,
    k: nat,
) -> Option<i64> {
    match poll_updates(question, events, k) {
        Some(updates) => offset_after(updates),
        None => None,
    }
}

/// Whether `offset` is the one after the last poll that has one, among the first `n` events, or
/// the one after the old updates if no poll has one.
pub open spec fn follows_polls(
    question: QuestionView,
    events: spec_fn(nat) -> EventView,
    n: nat,
    offset: Option<i64>,
) -> bool {
    ||| exists|k: nat|
        k < n && #[trigger] poll_offset(question, events, k) is Some && offset == poll_offset(
            question,
            events,
            k,
        ) && forall|j: nat| k < j < n ==> #[trigger] poll_offset(question, events, j) is None
    ||| (forall|j: nat| j < n ==> #[trigger] poll_offset(question, events, j) is None)
        && follows_old_updates(question, events, n, offset)
}

/// Whether no poll among the first `n` events held an answer to the request.
pub open spec fn no_earlier_answer(
    question: QuestionView,
    events: spec_fn(nat) -> EventView,
    n: nat,
    user_id: i64,
    request_id: Seq<char>,
) -> bool {
    forall|j: nat|
        j < n ==> (#[trigger] poll_updates(question, events, j) matches Some(updates)
            ==> first_answer_view(updates, user_id, request_id, question.choices) is None)
}

/// After so many events, the session asked for the question to be sent to `chat`, with buttons
/// of the request `request_id`.
pub open spec fn was_asked(
    question: QuestionView,
    events: spec_fn(nat) -> EventView,
    k: nat,
    chat: Seq<char>,
    request_id: Seq<char>,
) -> bool {
    course(question, events, k).1 == ActionView::Call(
        send_question_view(chat, question.text, question.title, request_id, question.choices),
    )
}

/// The event with this number was the first poll that held an answer to the request: its first
/// answer is `answer`, and its updates come before `next`.
pub open spec fn was_answered(
    question: QuestionView,
    events: spec_fn(nat) -> EventView,
    k: nat,
    user_id: i64,
    request_id: Seq<char>,
    answer: AnswerView,
    next: Option<i64>,
) -> bool {
    &&& no_earlier_answer(question, events, k, user_id, request_id)
    &&& poll_updates(question, events, k) matches Some(updates)
    &&& first_answer_view(updates, user_id, request_id, question.choices) == Some(answer)
    &&& offset_after(updates) == next
}

/// The event with this number told the session that its question is the message `message_id`.
pub open spec fn message_was_sent(
    question: QuestionView,
    events: spec_fn(nat) -> EventView,
    k: nat,
    message_id: i64,
) -> bool {
    &&& sends(course(question, events, k).1)
    &&& events(k) matches EventView::Reply(sent) && member(sent, "message_id"@) == Some(
        Json::Integer(message_id as int),
    )
}

/// After so many events, the session asked for the lock file to say where its question is.
pub open spec fn record_was_asked(
    question: QuestionView,
    events: spec_fn(nat) -> EventView,
    k: nat,
    facts: FactsView,
) -> bool {
    course(question, events, k).1 == (ActionView::Record {
        pid: facts.pid,
        chat: facts.chat,
        message_id: facts.message_id,
    })
}

/// The event with this number told the session that the clock runs for as long as the question
/// may wait.
pub open spec fn clock_was_started(
    question: QuestionView,
    events: spec_fn(nat) -> EventView,
    k: nat,
) -> bool {
    &&& course(question, events, k).1 == (ActionView::StartClock {
        timeout_secs: question.timeout_secs,
    })
    &&& events(k) is Done
}

/// After so many events, the session asked for the button with this press to show that the
/// answer was received.
pub open spec fn press_was_acknowledged(
    question: QuestionView,
    events: spec_fn(nat) -> EventView,
    k: nat,
    callback_query_id: Seq<char>,
) -> bool {
    course(question, events, k).1 == ActionView::Call(
        answer_callback_view(callback_query_id, "🟢 Answer received."@, None),
    )
}

/// The event with this number told the session that the offset `next` after old updates is
/// stored.
pub open spec fn old_offset_was_stored(
    question: QuestionView,
    events: spec_fn(nat) -> EventView,
    k: nat,
    next: i64,
) -> bool {
    &&& course(question, events, k).1 matches ActionView::Settle { offset, .. } && offset == Some(
        next,
    )
    &&& events(k) is Done
}

/// The event with this number told the session that the offset `next` is stored.
pub open spec fn offset_was_stored(
    question: QuestionView,
    events: spec_fn(nat) -> EventView,
    k: nat,
    next: i64,
) -> bool {
    &&& course(question, events, k).1 == ActionView::StoreOffset(next)
    &&& events(k) is Done
}

/// The event with this number told the session that its caller still waits for `answer`.
pub open spec fn was_still_awaited(
    question: QuestionView,
    events: spec_fn(nat) -> EventView,
    k: nat,
    answer: AnswerView,
) -> bool {
    &&& course(question, events, k).0.phase == PhaseView::Answering { answer }
    &&& events(k) == EventView::Cancelled(false)
}

/// The event with this number told the session that no time is left.
pub open spec fn time_was_up(question: QuestionView, events: spec_fn(nat) -> EventView, k: nat) -> bool {
    &&& course(question, events, k).1 is ReadClock
    &&& events(k) == EventView::Remaining(Span { secs: 0, nanos: 0 })
}

/// Whether, within the first `n` events, the answer was read from the first poll that held one,
/// and the offset after that poll was stored.
pub open spec fn answer_was_read(
    question: QuestionView,
    events: spec_fn(nat) -> EventView,
    n: nat,
    user_id: i64,
    request_id: Seq<char>,
    answer: AnswerView,
) -> bool {
    exists|k: nat, next: Option<i64>| #[trigger]
        was_answered(question, events, k, user_id, request_id, answer, next) && k < n && (
        next matches Some(next) ==> exists|m: nat|
            k < m < n && #[trigger] offset_was_stored(question, events, m, next))
}

/// Whether, within the first `n` events, an answer with this text was read from the first poll
/// that held one, the offset after that poll was stored, and the caller still waited for the
/// answer.
pub open spec fn answer_was_taken(
    question: QuestionView,
    events: spec_fn(nat) -> EventView,
    n: nat,
    user_id: i64,
    request_id: Seq<char>,
    text: Seq<char>,
) -> bool {
    exists|answer: AnswerView, k: nat| #[trigger]
        was_still_awaited(question, events, k, answer) && k < n && answer.text() == text
            && answer_was_read(question, events, k, user_id, request_id, answer)
}

/// The event with this number was a poll in which the update at `i` is a press of a button or
/// a message of the user's, in their chat with the bot, and answers the request with `text`.
pub open spec fn user_said(
    question: QuestionView,
    events: spec_fn(nat) -> EventView,
    k: nat,
    i: int,
    user_id: i64,
    request_id: Seq<char>,
    text: Seq<char>,
) -> bool {
    &&& poll_updates(question, events, k) matches Some(updates)
    &&& 0 <= i < updates.len()
    &&& callback_is_from(updates[i], user_id) || message_is_from(updates[i], user_id)
    &&& parsed_answer(updates[i], user_id, request_id, question.choices) matches Some(answer)
    &&& answer.text() == text
}

/// Whether a session waits with its question sent.
pub open spec fn underway(phase: PhaseView) -> bool {
    past_sending(phase) && !(phase is Finished)
}

proof fn lemma_course_step(question: QuestionView, events: spec_fn(nat) -> EventView, n: nat)
    ensures
        course(question, events, n + 1) == step(course(question, events, n).0, events(n)),
{
}

proof fn lemma_question_stays(question: QuestionView, events: spec_fn(nat) -> EventView, n: nat)
    ensures
        course(question, events, n).0.facts.question == question,
    decreases n,
{
    if n > 0 {
        lemma_question_stays(question, events, (n - 1) as nat);
    }
}

/// A session asks for its question to be sent at most once.
pub proof fn a_question_is_sent_once(
    question: QuestionView,
    events: spec_fn(nat) -> EventView,
    i: nat,
    j: nat,
)
    requires
        i < j,
        sends(course(question, events, i).1),
    ensures
        !sends(course(question, events, j).1),
{
    lemma_past_sending_after(question, events, i, (j - 1) as nat);
}

proof fn lemma_past_sending_after(
    question: QuestionView,
    events: spec_fn(nat) -> EventView,
    i: nat,
    j: nat,
)
    requires
        i <= j,
        sends(course(question, events, i).1),
    ensures
        past_sending(course(question, events, j).0.phase),
    decreases j,
{
    if i < j {
        lemma_past_sending_after(question, events, i, (j - 1) as nat);
    }
}

/// Once the caller has stopped waiting, the session sends no question and reports no answer.
pub proof fn a_cancelled_question_stays_unanswered(
    question: QuestionView,
    events: spec_fn(nat) -> EventView,
    i: nat,
    j: nat,
)
    requires
        i < j,
        course(question, events, i).1 is CheckCancelled,
        events(i) == EventView::Cancelled(true),
    ensures
        !sends(course(question, events, j).1),
        !answers(course(question, events, j).1),
{
    lemma_checks_fit(question, events, i);
    lemma_winding_up_after(question, events, i, j);
}

/// Whether a session waits to be told whether its caller still waits.
pub open spec fn checks(phase: PhaseView) -> bool {
    match phase {
        PhaseView::Starting => true,
        PhaseView::Ready => true,
        PhaseView::Waking => true,
        PhaseView::PollFailed { .. } => true,
        PhaseView::Polled { .. } => true,
        PhaseView::Answering { .. } => true,
        _ => false,
    }
}

proof fn lemma_checks_fit(question: QuestionView, events: spec_fn(nat) -> EventView, n: nat)
    ensures
        course(question, events, n).1 is CheckCancelled <==> checks(
            course(question, events, n).0.phase,
        ),
{
}

proof fn lemma_winding_up_after(question: QuestionView, events: spec_fn(nat) -> EventView, i: nat, j: nat)
    requires
        i < j,
        checks(course(question, events, i).0.phase),
        events(i) == EventView::Cancelled(true),
    ensures
        winding_up(course(question, events, j).0.phase),
        !answers(course(question, events, j).1),
        !sends(course(question, events, j).1),
    decreases j,
{
    if j > i + 1 {
        lemma_winding_up_after(question, events, i, (j - 1) as nat);
    }
}

/// A session whose caller stopped waiting ends at once if its question was not sent, and else
/// asks for the message to show it, without its buttons, and ends then.
pub proof fn a_cancelled_question_is_closed(
    question: QuestionView,
    events: spec_fn(nat) -> EventView,
    i: nat,
)
    requires
        course(question, events, i).1 is CheckCancelled,
        events(i) == EventView::Cancelled(true),
    ensures
        ({
            let before = course(question, events, i).0;
            let action = course(question, events, i + 1).1;
            if past_sending(before.phase) {
                action == ActionView::Close(
                    edit_question_view(
                        before.facts.chat,
                        before.facts.message_id,
                        cancelled_view(question.text, question.title),
                    ),
                ) && (events(i + 1) is Done || events(i + 1) is Failed ==> course(
                    question,
                    events,
                    i + 2,
                ).1 == ActionView::Finish(
                    OutcomeView::Refused(AskError::Cancelled { closed: events(i + 1) is Done }),
                ))
            } else {
                action == ActionView::Finish(OutcomeView::Refused(AskError::CancelledBeforeSend))
            }
        }),
{
    lemma_checks_fit(question, events, i);
    lemma_question_stays(question, events, i);
    lemma_course_step(question, events, i);
    lemma_course_step(question, events, i + 1);
}

/// Once the session was told that no time is left, it reports no answer: what comes later is
/// not taken for one.
pub proof fn an_expired_question_stays_unanswered(
    question: QuestionView,
    events: spec_fn(nat) -> EventView,
    i: nat,
    j: nat,
)
    requires
        i < j,
        time_was_up(question, events, i),
    ensures
        !answers(course(question, events, j).1),
{
    lemma_expired_after(question, events, i, j);
}

proof fn lemma_expired_after(question: QuestionView, events: spec_fn(nat) -> EventView, i: nat, j: nat)
    requires
        i < j,
        time_was_up(question, events, i),
    ensures
        course(question, events, j).0.phase is ClosingExpired || course(
            question,
            events,
            j,
        ).0.phase is Finished,
        !answers(course(question, events, j).1),
    decreases j,
{
    if j > i + 1 {
        lemma_expired_after(question, events, i, (j - 1) as nat);
    }
}

/// A session ends once: whatever comes after its outcome is a failure, and changes nothing.
pub proof fn a_session_ends_once(
    question: QuestionView,
    events: spec_fn(nat) -> EventView,
    i: nat,
    j: nat,
)
    requires
        i < j,
        course(question, events, i).1 is Finish,
    ensures
        course(question, events, j) == (
            course(question, events, i).0,
            ActionView::Finish(OutcomeView::Failed),
        ),
    decreases j,
{
    if j > i + 1 {
        a_session_ends_once(question, events, i, (j - 1) as nat);
    }
}

/// The session asks whether its caller still waits before each poll, and again as soon as the
/// poll is over.
pub proof fn polls_stand_between_checks(
    question: QuestionView,
    events: spec_fn(nat) -> EventView,
    n: nat,
)
    requires
        course(question, events, n).0.phase is Polling,
    ensures
        n >= 2 && course(question, events, (n - 2) as nat).1 is CheckCancelled && events(
            (n - 2) as nat,
        ) == EventView::Cancelled(false),
        events(n) is Reply || events(n) is Failed ==> course(question, events, n + 1).1
            is CheckCancelled,
{
    lemma_course_step(question, events, n);
    lemma_course_step(question, events, (n - 1) as nat);
    lemma_course_step(question, events, (n - 2) as nat);
    lemma_checks_fit(question, events, (n - 2) as nat);
}

/// Before a session reports an answer, an expiry or a cancellation, it asks for the message of
/// its question to show that, without its buttons.
pub proof fn the_message_is_closed_before_the_outcome(
    question: QuestionView,
    events: spec_fn(nat) -> EventView,
    n: nat,
)
    ensures
        ({
            let facts = course(question, events, n + 1).0.facts;
            let before = course(question, events, n).1;
            match course(question, events, n + 1).1 {
                ActionView::Finish(OutcomeView::Answered(text)) => before == ActionView::Close(
                    edit_question_view(
                        facts.chat,
                        facts.message_id,
                        answered_view(question.text, question.title, text),
                    ),
                ),
                ActionView::Finish(
                    OutcomeView::Refused(AskError::Expired { timeout_secs, .. }),
                ) => timeout_secs == question.timeout_secs && before == ActionView::Close(
                    edit_question_view(
                        facts.chat,
                        facts.message_id,
                        expired_view(
                            question.text,
                            question.title,
                            wait_view(question.timeout_secs as nat),
                        ),
                    ),
                ),
                ActionView::Finish(OutcomeView::Refused(AskError::Cancelled { .. })) => before
                    == ActionView::Close(
                    edit_question_view(
                        facts.chat,
                        facts.message_id,
                        cancelled_view(question.text, question.title),
                    ),
                ),
                _ => true,
            }
        }),
{
    lemma_course_step(question, events, n);
    lemma_question_stays(question, events, n);
    lemma_errors_fit(question, events, n);
    lemma_closing_fits(question, events, n);
    lemma_outcomes(course(question, events, n).0, events(n));
}

proof fn lemma_errors_fit(question: QuestionView, events: spec_fn(nat) -> EventView, n: nat)
    ensures
        course(question, events, n).0.phase matches PhaseView::PollFailed { error: Some(error) }
            ==> error == AskError::UpdatesNotArray,
{
}

proof fn lemma_closing_fits(question: QuestionView, events: spec_fn(nat) -> EventView, n: nat)
    ensures
        ({
            let (state, action) = course(question, events, n);
            match state.phase {
                PhaseView::ClosingAnswered { text } => action == show_answer(state.facts, text).1,
                PhaseView::ClosingExpired => action == expire(state.facts).1,
                PhaseView::ClosingCancelled => action == withdraw(state.facts).1,
                _ => true,
            }
        }),
{
}

proof fn lemma_outcomes(state: SessionView, event: EventView)
    requires
        state.phase matches PhaseView::PollFailed { error: Some(error) } ==> error
            == AskError::UpdatesNotArray,
    ensures
        match step(state, event).1 {
            ActionView::Finish(OutcomeView::Answered(text)) => state.phase
                == (PhaseView::ClosingAnswered { text }) && step(state, event).0.facts
                == state.facts,
            ActionView::Finish(OutcomeView::Refused(AskError::Expired { timeout_secs, .. })) =>
                state.phase is ClosingExpired && timeout_secs == state.facts.question.timeout_secs
                    && step(state, event).0.facts == state.facts,
            ActionView::Finish(OutcomeView::Refused(AskError::Cancelled { .. })) =>
                state.phase is ClosingCancelled && step(state, event).0.facts == state.facts,
            _ => true,
        },
{
}

/// A question goes only to the chat that was named for it, which Telegram said is the private
/// one of the user, and only while the session has the lock: all of this was found before it is
/// sent.
pub proof fn a_question_is_sent_in_private_under_the_lock(
    question: QuestionView,
    events: spec_fn(nat) -> EventView,
    n: nat,
)
    requires
        sends(course(question, events, n).1),
    ensures
        ({
            let facts = course(question, events, n).0.facts;
            &&& was_asked(question, events, n, facts.chat, facts.request_id)
            &&& exists|k: nat| k < n && #[trigger] chat_was_named(question, events, k, facts.chat)
            &&& exists|k: nat|
                k < n && #[trigger] chat_was_checked(
                    question,
                    events,
                    k,
                    facts.chat,
                    facts.user_id,
                )
            &&& exists|k: nat| k < n && #[trigger] lock_was_taken(question, events, k)
        }),
{
    lemma_question_stays(question, events, (n - 1) as nat);
    lemma_chat_is_named(question, events, n);
    lemma_lock_and_chat(question, events, n);
}

/// Whether a session knows which chat to ask in, and has not finished.
pub open spec fn knows_chat(phase: PhaseView) -> bool {
    match phase {
        PhaseView::Starting => false,
        PhaseView::FindingChat => false,
        PhaseView::Finished => false,
        _ => true,
    }
}

proof fn lemma_chat_is_named(question: QuestionView, events: spec_fn(nat) -> EventView, n: nat)
    ensures
        knows_chat(course(question, events, n).0.phase) ==> exists|k: nat|
            k < n && #[trigger] chat_was_named(
                question,
                events,
                k,
                course(question, events, n).0.facts.chat,
            ),
        course(question, events, n).0.phase is FindingChat ==> course(question, events, n).1 is FindChat,
        course(question, events, n).0.phase is CheckingChat ==> course(question, events, n).1
            == ActionView::Call(get_chat_view(course(question, events, n).0.facts.chat)),
    decreases n,
{
    if n > 0 {
        let m = (n - 1) as nat;
        lemma_chat_is_named(question, events, m);
        let before = course(question, events, m).0;
        let after = course(question, events, n).0;
        if before.phase is FindingChat && after.phase is CheckingChat {
            assert(chat_was_named(question, events, m, after.facts.chat));
        } else if knows_chat(after.phase) {
            let k = choose|k: nat|
                k < m && #[trigger] chat_was_named(question, events, k, before.facts.chat);
            assert(chat_was_named(question, events, k, after.facts.chat));
        }
    }
}

proof fn lemma_lock_and_chat(question: QuestionView, events: spec_fn(nat) -> EventView, n: nat)
    ensures
        ({
            let state = course(question, events, n).0;
            &&& holds_lock(state.phase) || state.phase is Locking ==> exists|k: nat|
                k < n && #[trigger] chat_was_checked(
                    question,
                    events,
                    k,
                    state.facts.chat,
                    state.facts.user_id,
                )
            &&& holds_lock(state.phase) ==> exists|k: nat|
                k < n && #[trigger] lock_was_taken(question, events, k)
        }),
    decreases n,
{
    if n > 0 {
        let m = (n - 1) as nat;
        lemma_lock_and_chat(question, events, m);
        lemma_take_lock_fits(question, events, m);
        lemma_chat_is_named(question, events, m);
        let before = course(question, events, m).0;
        let after = course(question, events, n).0;
        if before.phase is CheckingChat && after.phase is Locking {
            assert(chat_was_checked(question, events, m, after.facts.chat, after.facts.user_id));
        } else if holds_lock(after.phase) || after.phase is Locking {
            let k = choose|k: nat|
                k < m && #[trigger] chat_was_checked(
                    question,
                    events,
                    k,
                    before.facts.chat,
                    before.facts.user_id,
                );
            assert(after.facts.user_id == before.facts.user_id);
            assert(chat_was_checked(question, events, k, after.facts.chat, after.facts.user_id));
        }
        if before.phase is Locking && holds_lock(after.phase) {
            assert(lock_was_taken(question, events, m));
        }
    }
}

proof fn lemma_take_lock_fits(question: QuestionView, events: spec_fn(nat) -> EventView, n: nat)
    ensures
        course(question, events, n).0.phase is Locking ==> course(question, events, n).1 is TakeLock,
{
}

/// A question is sent only after the old updates were read to their end. New ones are read from
/// the offset after the last batch of old ones that has an offset, or from the one that was
/// stored before if none has.
pub proof fn old_updates_are_read_before_a_question_is_sent(
    question: QuestionView,
    events: spec_fn(nat) -> EventView,
    n: nat,
)
    requires
        sends(course(question, events, n).1),
    ensures
        exists|k: nat| k < n && #[trigger] old_updates_ended(question, events, k),
        follows_old_updates(question, events, n, course(question, events, n).0.facts.offset),
{
    lemma_old_updates_end(question, events, n);
    lemma_offset_follows(question, events, n);
}

/// No update is read for an answer before the question is sent.
pub proof fn no_poll_precedes_the_question(
    question: QuestionView,
    events: spec_fn(nat) -> EventView,
    j: nat,
    n: nat,
)
    requires
        sends(course(question, events, n).1),
        j <= n,
    ensures
        poll_updates(question, events, j) is None,
{
    lemma_no_poll_yet(question, events, n);
}

proof fn lemma_old_updates_end(question: QuestionView, events: spec_fn(nat) -> EventView, n: nat)
    ensures
        ({
            let state = course(question, events, n).0;
            match state.phase {
                PhaseView::Settling { full: false, .. } => n >= 1 && old_updates_ended(
                    question,
                    events,
                    (n - 1) as nat,
                ),
                PhaseView::Ready | PhaseView::Naming | PhaseView::Sending => exists|k: nat|
                    k < n && #[trigger] old_updates_ended(question, events, k),
                _ => true,
            }
        }),
    decreases n,
{
    if n > 0 {
        let m = (n - 1) as nat;
        lemma_old_updates_end(question, events, m);
        let before = course(question, events, m).0;
        let after = course(question, events, n).0;
        match (before.phase, after.phase) {
            (PhaseView::Draining { .. }, PhaseView::Settling { full: false, .. }) => {
                assert(old_updates_ended(question, events, m));
            },
            (PhaseView::Draining { .. }, PhaseView::Ready) => {
                assert(old_updates_ended(question, events, m));
            },
            (PhaseView::Settling { .. }, PhaseView::Ready) => {
                assert(old_updates_ended(question, events, (m - 1) as nat));
            },
            _ => {},
        }
    }
}

/// Whether a session has not come to reading old updates.
pub open spec fn before_draining(phase: PhaseView) -> bool {
    match phase {
        PhaseView::Starting => true,
        PhaseView::FindingChat => true,
        PhaseView::CheckingChat => true,
        PhaseView::Locking => true,
        PhaseView::ReadingOffset => true,
        _ => false,
    }
}

proof fn lemma_offset_follows(question: QuestionView, events: spec_fn(nat) -> EventView, n: nat)
    ensures
        ({
            let state = course(question, events, n).0;
            match state.phase {
                PhaseView::Settling { next: Some(next), .. } => follows_old_updates(
                    question,
                    events,
                    n,
                    Some(next),
                ),
                PhaseView::Settling { .. } | PhaseView::Draining { .. } | PhaseView::Ready
                | PhaseView::Naming | PhaseView::Sending => follows_old_updates(
                    question,
                    events,
                    n,
                    state.facts.offset,
                ),
                _ => true,
            }
        }),
        before_draining(course(question, events, n).0.phase) ==> forall|j: nat|
            j < n ==> #[trigger] old_offset(question, events, j) is None,
    decreases n,
{
    if n > 0 {
        let m = (n - 1) as nat;
        lemma_offset_follows(question, events, m);
        let before = course(question, events, m).0;
        let after = course(question, events, n).0;
        match (before.phase, after.phase) {
            (PhaseView::ReadingOffset, PhaseView::Draining { .. }) => {
                assert(offset_was_read(question, events, m, after.facts.offset));
                assert(old_offset(question, events, m) is None);
            },
            (PhaseView::Draining { .. }, PhaseView::Settling { next: Some(next), .. }) => {
                assert(old_offset(question, events, m) == Some(next));
            },
            (PhaseView::Settling { next: Some(next), .. }, _) => {
                assert(old_offset(question, events, m) is None);
                lemma_follows_on(question, events, m, Some(next));
            },
            _ => {
                if !(before.phase is Finished) && old_offset(question, events, m) is None {
                    lemma_follows_on(question, events, m, before.facts.offset);
                }
            },
        }
    }
}

proof fn lemma_follows_on(
    question: QuestionView,
    events: spec_fn(nat) -> EventView,
    n: nat,
    offset: Option<i64>,
)
    requires
        old_offset(question, events, n) is None,
    ensures
        follows_old_updates(question, events, n, offset) ==> follows_old_updates(
            question,
            events,
            n + 1,
            offset,
        ),
{
    if follows_old_updates(question, events, n, offset) {
        if forall|j: nat| j < n ==> #[trigger] old_offset(question, events, j) is None {
            let k = choose|k: nat|
                k < n && #[trigger] offset_was_read(question, events, k, offset);
            assert(k < n + 1 && offset_was_read(question, events, k, offset));
        } else {
            let k = choose|k: nat|
                k < n && #[trigger] old_offset(question, events, k) is Some && offset
                    == old_offset(question, events, k) && forall|j: nat|
                    k < j < n ==> #[trigger] old_offset(question, events, j) is None;
            assert(k < n + 1 && old_offset(question, events, k) is Some);
        }
    }
}

/// Whether a session has not come to waiting for an answer.
pub open spec fn before_waiting(phase: PhaseView) -> bool {
    !past_sending(phase) || phase is Sending || phase is Recording || phase is StartingClock
}

proof fn lemma_no_poll_yet(question: QuestionView, events: spec_fn(nat) -> EventView, n: nat)
    ensures
        before_waiting(course(question, events, n).0.phase) ==> forall|j: nat|
            j <= n ==> #[trigger] poll_updates(question, events, j) is None,
    decreases n,
{
    if n > 0 {
        lemma_no_poll_yet(question, events, (n - 1) as nat);
    }
}

/// Whether a session has yet to find an answer.
pub open spec fn still_unanswered(phase: PhaseView) -> bool {
    match phase {
        PhaseView::Waking => true,
        PhaseView::ReadingClock => true,
        PhaseView::Polling => true,
        PhaseView::StoringOffset { found: None, .. } => true,
        _ => before_waiting(phase),
    }
}

proof fn lemma_unanswered(question: QuestionView, events: spec_fn(nat) -> EventView, n: nat)
    ensures
        ({
            let state = course(question, events, n).0;
            &&& still_unanswered(state.phase) ==> no_earlier_answer(
                question,
                events,
                n,
                state.facts.user_id,
                state.facts.request_id,
            )
            &&& state.phase matches PhaseView::Polled { reply } ==> n >= 1 && poll_updates(
                question,
                events,
                (n - 1) as nat,
            ) == as_list(reply) && no_earlier_answer(
                question,
                events,
                (n - 1) as nat,
                state.facts.user_id,
                state.facts.request_id,
            )
        }),
    decreases n,
{
    if n > 0 {
        let m = (n - 1) as nat;
        lemma_unanswered(question, events, m);
        lemma_no_poll_yet(question, events, m);
        lemma_no_poll_yet(question, events, n);
        lemma_question_stays(question, events, m);
        let before = course(question, events, m).0;
        if still_unanswered(course(question, events, n).0.phase) && !(before.phase is Polling) {
            assert(poll_updates(question, events, m) is None);
        }
    }
}

/// An answer that a session reports was given to the question that it sent: it is the first
/// answer of the first poll that held one, read as an answer to the request whose buttons were
/// sent. It is reported only after the offset after that poll was stored, so that no later
/// question reads it again, and only to a caller who still waited for it.
pub proof fn a_reported_answer_was_given(
    question: QuestionView,
    events: spec_fn(nat) -> EventView,
    n: nat,
    text: Seq<char>,
)
    requires
        course(question, events, n).1 == ActionView::Finish(OutcomeView::Answered(text)),
    ensures
        ({
            let facts = course(question, events, n).0.facts;
            &&& exists|k: nat|
                k < n && #[trigger] was_asked(question, events, k, facts.chat, facts.request_id)
            &&& answer_was_taken(question, events, n, facts.user_id, facts.request_id, text)
        }),
{
    let m = (n - 1) as nat;
    lemma_course_step(question, events, m);
    lemma_asked(question, events, m);
    lemma_taken(question, events, m);
    lemma_taken_stays(question, events, m, text);
}

/// Only the user's own replies are reported: an answer is what they pressed or wrote in the
/// chat that was named for the question, which Telegram said is their private one.
pub proof fn a_reported_answer_is_the_users(
    question: QuestionView,
    events: spec_fn(nat) -> EventView,
    n: nat,
    text: Seq<char>,
)
    requires
        course(question, events, n).1 == ActionView::Finish(OutcomeView::Answered(text)),
    ensures
        ({
            let facts = course(question, events, n).0.facts;
            &&& exists|k: nat| k < n && #[trigger] chat_was_named(question, events, k, facts.chat)
            &&& exists|k: nat|
                k < n && #[trigger] chat_was_checked(
                    question,
                    events,
                    k,
                    facts.chat,
                    facts.user_id,
                )
            &&& exists|k: nat, i: int|
                k < n && #[trigger] user_said(
                    question,
                    events,
                    k,
                    i,
                    facts.user_id,
                    facts.request_id,
                    text,
                )
        }),
{
    let facts = course(question, events, n).0.facts;
    let m = (n - 1) as nat;
    lemma_course_step(question, events, m);
    lemma_chat_is_named(question, events, m);
    lemma_lock_and_chat(question, events, m);
    a_reported_answer_was_given(question, events, n, text);
    let (answer, awaited) = choose|answer: AnswerView, k: nat| #[trigger]
        was_still_awaited(question, events, k, answer) && k < n && answer.text() == text
            && answer_was_read(
            question,
            events,
            k,
            facts.user_id,
            facts.request_id,
            answer,
        );
    let (k, next) = choose|k: nat, next: Option<i64>| #[trigger]
        was_answered(question, events, k, facts.user_id, facts.request_id, answer, next) && k
            < awaited;
    let updates = poll_updates(question, events, k)->0;
    the_first_answer_is_the_users(updates, facts.user_id, facts.request_id, question.choices);
    let i = choose|i: int|
        0 <= i < updates.len() && #[trigger] parsed_answer(
            updates[i],
            facts.user_id,
            facts.request_id,
            question.choices,
        ) == Some(answer) && (callback_is_from(updates[i], facts.user_id) || message_is_from(
            updates[i],
            facts.user_id,
        ));
    assert(user_said(question, events, k, i, facts.user_id, facts.request_id, text));
}

/// A tap is acknowledged: where a session reports an answer that was given with a button, the
/// first thing it asked for once it took the answer was that the button shows it.
pub proof fn a_tap_is_acknowledged(
    question: QuestionView,
    events: spec_fn(nat) -> EventView,
    n: nat,
    text: Seq<char>,
)
    requires
        course(question, events, n).1 == ActionView::Finish(OutcomeView::Answered(text)),
    ensures
        ({
            let facts = course(question, events, n).0.facts;
            exists|answer: AnswerView, k: nat| #[trigger]
                was_still_awaited(question, events, k, answer) && k < n && answer.text() == text
                    && answer_was_read(
                    question,
                    events,
                    k,
                    facts.user_id,
                    facts.request_id,
                    answer,
                ) && (answer matches AnswerView::Choice { callback_query_id, .. } ==> k + 1 < n
                    && press_was_acknowledged(question, events, k + 1, callback_query_id))
        }),
{
    let facts = course(question, events, n).0.facts;
    a_reported_answer_was_given(question, events, n, text);
    let (answer, k) = choose|answer: AnswerView, k: nat| #[trigger]
        was_still_awaited(question, events, k, answer) && k < n && answer.text() == text
            && answer_was_read(
            question,
            events,
            k,
            facts.user_id,
            facts.request_id,
            answer,
        );
    lemma_course_step(question, events, k);
    assert(was_still_awaited(question, events, k, answer));
}

/// An answer that a session takes is the one that it reports, if it reports one.
pub proof fn the_answer_that_is_taken_is_reported(
    question: QuestionView,
    events: spec_fn(nat) -> EventView,
    k: nat,
    n: nat,
    answer: AnswerView,
    text: Seq<char>,
)
    requires
        was_still_awaited(question, events, k, answer),
        k < n,
        course(question, events, n).1 == ActionView::Finish(OutcomeView::Answered(text)),
    ensures
        text == answer.text(),
{
    lemma_course_step(question, events, k);
    lemma_answer_stays(question, events, k, (n - 1) as nat, answer);
}

proof fn lemma_answer_stays(
    question: QuestionView,
    events: spec_fn(nat) -> EventView,
    k: nat,
    n: nat,
    answer: AnswerView,
)
    requires
        was_still_awaited(question, events, k, answer),
    ensures
        k < n ==> match course(question, events, n).0.phase {
            PhaseView::Acknowledging { text } => text == answer.text(),
            PhaseView::ClosingAnswered { text } => text == answer.text(),
            PhaseView::Finished => true,
            _ => false,
        },
    decreases n,
{
    if k < n {
        lemma_answer_stays(question, events, k, (n - 1) as nat, answer);
    }
}

proof fn lemma_asked(question: QuestionView, events: spec_fn(nat) -> EventView, n: nat)
    ensures
        underway(course(question, events, n).0.phase) ==> exists|k: nat|
            k <= n && #[trigger] was_asked(
                question,
                events,
                k,
                course(question, events, n).0.facts.chat,
                course(question, events, n).0.facts.request_id,
            ),
    decreases n,
{
    if n > 0 {
        let m = (n - 1) as nat;
        lemma_asked(question, events, m);
        lemma_question_stays(question, events, m);
        let before = course(question, events, m).0;
        let after = course(question, events, n).0;
        if underway(after.phase) {
            if before.phase is Naming {
                assert(was_asked(question, events, n, after.facts.chat, after.facts.request_id));
            } else {
                let k = choose|k: nat|
                    k <= m && #[trigger] was_asked(
                        question,
                        events,
                        k,
                        before.facts.chat,
                        before.facts.request_id,
                    );
                assert(was_asked(question, events, k, after.facts.chat, after.facts.request_id));
            }
        }
    }
}

proof fn lemma_store_fits(question: QuestionView, events: spec_fn(nat) -> EventView, n: nat)
    ensures
        course(question, events, n).0.phase matches PhaseView::StoringOffset { offset, .. }
            ==> course(question, events, n).1 == ActionView::StoreOffset(offset),
{
}

proof fn lemma_found(question: QuestionView, events: spec_fn(nat) -> EventView, n: nat)
    ensures
        ({
            let state = course(question, events, n).0;
            state.phase matches PhaseView::StoringOffset { offset, found: Some(answer) } ==> n >= 2
                && was_answered(
                question,
                events,
                (n - 2) as nat,
                state.facts.user_id,
                state.facts.request_id,
                answer,
                Some(offset),
            )
        }),
{
    if n > 0 {
        let m = (n - 1) as nat;
        lemma_unanswered(question, events, m);
        lemma_question_stays(question, events, m);
    }
}

proof fn lemma_read(question: QuestionView, events: spec_fn(nat) -> EventView, n: nat)
    ensures
        ({
            let state = course(question, events, n).0;
            state.phase matches PhaseView::Answering { answer } ==> answer_was_read(
                question,
                events,
                n,
                state.facts.user_id,
                state.facts.request_id,
                answer,
            )
        }),
{
    if n > 0 {
        let m = (n - 1) as nat;
        lemma_found(question, events, m);
        lemma_unanswered(question, events, m);
        lemma_question_stays(question, events, m);
        lemma_store_fits(question, events, m);
        let before = course(question, events, m).0;
        let after = course(question, events, n).0;
        if let PhaseView::Answering { answer } = after.phase {
            match before.phase {
                PhaseView::Polled { .. } => {
                    assert(was_answered(
                        question,
                        events,
                        (m - 1) as nat,
                        after.facts.user_id,
                        after.facts.request_id,
                        answer,
                        None,
                    ));
                },
                PhaseView::StoringOffset { offset, .. } => {
                    assert(was_answered(
                        question,
                        events,
                        (m - 2) as nat,
                        after.facts.user_id,
                        after.facts.request_id,
                        answer,
                        Some(offset),
                    ));
                    assert(offset_was_stored(question, events, m, offset));
                },
                _ => {},
            }
        }
    }
}

proof fn lemma_taken(question: QuestionView, events: spec_fn(nat) -> EventView, n: nat)
    ensures
        ({
            let state = course(question, events, n).0;
            match state.phase {
                PhaseView::Acknowledging { text } => answer_was_taken(
                    question,
                    events,
                    n,
                    state.facts.user_id,
                    state.facts.request_id,
                    text,
                ),
                PhaseView::ClosingAnswered { text } => answer_was_taken(
                    question,
                    events,
                    n,
                    state.facts.user_id,
                    state.facts.request_id,
                    text,
                ),
                _ => true,
            }
        }),
    decreases n,
{
    if n > 0 {
        let m = (n - 1) as nat;
        lemma_taken(question, events, m);
        lemma_read(question, events, m);
        let before = course(question, events, m).0;
        match before.phase {
            PhaseView::Answering { answer } => {
                if events(m) == EventView::Cancelled(false) {
                    assert(was_still_awaited(question, events, m, answer));
                }
            },
            PhaseView::Acknowledging { text } => {
                lemma_taken_stays(question, events, m, text);
            },
            _ => {},
        }
    }
}

proof fn lemma_taken_stays(
    question: QuestionView,
    events: spec_fn(nat) -> EventView,
    n: nat,
    text: Seq<char>,
)
    ensures
        ({
            let facts = course(question, events, n).0.facts;
            answer_was_taken(question, events, n, facts.user_id, facts.request_id, text)
                ==> answer_was_taken(
                question,
                events,
                n + 1,
                facts.user_id,
                facts.request_id,
                text,
            )
        }),
{
    let facts = course(question, events, n).0.facts;
    if answer_was_taken(question, events, n, facts.user_id, facts.request_id, text) {
        let (answer, k) = choose|answer: AnswerView, k: nat| #[trigger]
            was_still_awaited(question, events, k, answer) && k < n && answer.text() == text
                && answer_was_read(
                question,
                events,
                k,
                facts.user_id,
                facts.request_id,
                answer,
            );
        assert(was_still_awaited(question, events, k, answer) && k < n + 1);
    }
}

/// A question is recorded before the wait: as soon as it is sent, the session asks for the lock
/// file to say where it is, by the number that Telegram gave the message, and goes on only when
/// that is done.
pub proof fn a_question_is_recorded_before_the_wait(
    question: QuestionView,
    events: spec_fn(nat) -> EventView,
    n: nat,
)
    requires
        underway(course(question, events, n).0.phase),
        !(course(question, events, n).0.phase is Sending),
    ensures
        ({
            let state = course(question, events, n).0;
            exists|k: nat|
                0 < k <= n && #[trigger] record_was_asked(question, events, k, state.facts)
                    && message_was_sent(question, events, (k - 1) as nat, state.facts.message_id)
                    && (k == n <==> state.phase is Recording) && (k < n ==> events(k) is Done)
        }),
    decreases n,
{
    let m = (n - 1) as nat;
    let before = course(question, events, m).0;
    let after = course(question, events, n).0;
    if before.phase is Sending {
        lemma_sending_fits(question, events, m);
        assert(record_was_asked(question, events, n, after.facts));
    } else {
        a_question_is_recorded_before_the_wait(question, events, m);
        let k = choose|k: nat|
            0 < k <= m && #[trigger] record_was_asked(question, events, k, before.facts)
                && message_was_sent(question, events, (k - 1) as nat, before.facts.message_id) && (k
                == m <==> before.phase is Recording) && (k < m ==> events(k) is Done);
        assert(record_was_asked(question, events, k, after.facts));
    }
}

proof fn lemma_sending_fits(question: QuestionView, events: spec_fn(nat) -> EventView, n: nat)
    ensures
        course(question, events, n).0.phase is Sending ==> sends(course(question, events, n).1),
{
}

/// A session reports that its question expired only after it was told that no time is left, and
/// the clock that told it was started for as long as the question may wait.
pub proof fn a_question_expires_when_time_is_up(
    question: QuestionView,
    events: spec_fn(nat) -> EventView,
    n: nat,
)
    requires
        course(question, events, n).1 matches ActionView::Finish(
            OutcomeView::Refused(AskError::Expired { .. }),
        ),
    ensures
        n >= 2 && time_was_up(question, events, (n - 2) as nat),
        exists|k: nat| k < n - 2 && #[trigger] clock_was_started(question, events, k),
{
    lemma_errors_fit(question, events, (n - 1) as nat);
    lemma_clock_runs(question, events, (n - 2) as nat);
}

proof fn lemma_clock_runs(question: QuestionView, events: spec_fn(nat) -> EventView, n: nat)
    ensures
        !before_waiting(course(question, events, n).0.phase) && !(course(
            question,
            events,
            n,
        ).0.phase is Finished) ==> exists|k: nat|
            k < n && #[trigger] clock_was_started(question, events, k),
    decreases n,
{
    if n > 0 {
        let m = (n - 1) as nat;
        lemma_clock_runs(question, events, m);
        lemma_start_clock_fits(question, events, m);
        if course(question, events, m).0.phase is StartingClock && events(m) is Done {
            assert(clock_was_started(question, events, m));
        }
    }
}

proof fn lemma_start_clock_fits(question: QuestionView, events: spec_fn(nat) -> EventView, n: nat)
    ensures
        course(question, events, n).0.phase is StartingClock ==> course(question, events, n).1
            == (ActionView::StartClock { timeout_secs: question.timeout_secs }),
{
    if n > 0 {
        lemma_question_stays(question, events, (n - 1) as nat);
    }
}

/// Old updates are asked for without waiting, each batch from where the last one ended.
pub proof fn old_updates_are_read_without_waiting(
    question: QuestionView,
    events: spec_fn(nat) -> EventView,
    n: nat,
)
    requires
        requests_updates(course(question, events, n).1),
        !past_sending(course(question, events, n).0.phase),
    ensures
        ({
            let offset = course(question, events, n).0.facts.offset;
            &&& course(question, events, n).1 == ActionView::Call(get_updates_view(offset, 0))
            &&& follows_old_updates(question, events, n, offset)
        }),
{
    lemma_offset_follows(question, events, n);
}

/// Each batch of old updates is dealt with before anything else: its buttons are closed, and the
/// offset after it is stored.
pub proof fn old_buttons_are_closed(
    question: QuestionView,
    events: spec_fn(nat) -> EventView,
    k: nat,
)
    requires
        old_updates(question, events, k) matches Some(updates) && updates.len() > 0,
    ensures
        course(question, events, k + 1).1 == (ActionView::Settle {
            dismissals: dismissals_view(
                old_updates(question, events, k)->0,
                course(question, events, k).0.facts.user_id,
            ),
            offset: old_offset(question, events, k),
        }),
{
    lemma_course_step(question, events, k);
}

/// After its question is sent, a session asks for updates only when it was told that time is
/// left. Each such request waits for one to ten seconds, and no longer than the whole seconds
/// that are left if there are any. It starts after the last poll that has an offset, or after
/// the old updates if none has.
pub proof fn polls_are_short_and_go_on(
    question: QuestionView,
    events: spec_fn(nat) -> EventView,
    i: nat,
    n: nat,
)
    requires
        sends(course(question, events, i).1),
        i <= n,
        requests_updates(course(question, events, n).1),
    ensures
        n >= 1,
        course(question, events, (n - 1) as nat).1 is ReadClock,
        events((n - 1) as nat) matches EventView::Remaining(remaining) && (remaining.secs > 0
            || remaining.nanos > 0) && course(question, events, n).1 == ActionView::Call(
            get_updates_view(course(question, events, n).0.facts.offset, poll_secs(remaining)),
        ) && 1 <= poll_secs(remaining) <= POLL_TIMEOUT_SECS && (remaining.secs >= 1 ==> poll_secs(
            remaining,
        ) <= remaining.secs),
        follows_polls(question, events, n, course(question, events, n).0.facts.offset),
{
    lemma_past_sending_after(question, events, i, n);
    lemma_read_clock_fits(question, events, (n - 1) as nat);
    lemma_polls_follow(question, events, n);
}

proof fn lemma_read_clock_fits(question: QuestionView, events: spec_fn(nat) -> EventView, n: nat)
    ensures
        course(question, events, n).0.phase is ReadingClock ==> course(question, events, n).1
            is ReadClock,
{
}

proof fn lemma_polls_follow(question: QuestionView, events: spec_fn(nat) -> EventView, n: nat)
    ensures
        ({
            let state = course(question, events, n).0;
            match state.phase {
                PhaseView::Sending | PhaseView::Recording | PhaseView::StartingClock
                | PhaseView::Waking | PhaseView::ReadingClock | PhaseView::Polling => follows_polls(
                    question,
                    events,
                    n,
                    state.facts.offset,
                ),
                PhaseView::Polled { reply } => n >= 1 && poll_updates(
                    question,
                    events,
                    (n - 1) as nat,
                ) == as_list(reply) && follows_polls(
                    question,
                    events,
                    (n - 1) as nat,
                    state.facts.offset,
                ),
                PhaseView::StoringOffset { offset, .. } => follows_polls(
                    question,
                    events,
                    n,
                    Some(offset),
                ),
                _ => true,
            }
        }),
    decreases n,
{
    if n > 0 {
        let m = (n - 1) as nat;
        lemma_polls_follow(question, events, m);
        let before = course(question, events, m).0;
        let after = course(question, events, n).0;
        match (before.phase, after.phase) {
            (_, PhaseView::Sending) => {
                lemma_offset_follows(question, events, n);
                lemma_no_poll_yet(question, events, n);
                assert forall|j: nat| j < n implies #[trigger] poll_offset(
                    question,
                    events,
                    j,
                ) is None by {
                    assert(poll_updates(question, events, j) is None);
                }
            },
            (PhaseView::Polled { .. }, PhaseView::StoringOffset { offset, .. }) => {
                assert(poll_offset(question, events, (m - 1) as nat) == Some(offset));
                assert(poll_offset(question, events, m) is None);
            },
            (PhaseView::Polled { .. }, _) => {
                if poll_offset(question, events, (m - 1) as nat) is None {
                    lemma_polls_follow_on(question, events, (m - 1) as nat, before.facts.offset);
                    lemma_polls_follow_on(question, events, m, before.facts.offset);
                }
            },
            (PhaseView::StoringOffset { offset, .. }, _) => {
                lemma_polls_follow_on(question, events, m, Some(offset));
            },
            (PhaseView::Polling, _) => {},
            _ => {
                if past_sending(before.phase) {
                    lemma_polls_follow_on(question, events, m, before.facts.offset);
                }
            },
        }
    }
}

proof fn lemma_polls_follow_on(
    question: QuestionView,
    events: spec_fn(nat) -> EventView,
    n: nat,
    offset: Option<i64>,
)
    requires
        old_offset(question, events, n) is None,
        poll_offset(question, events, n) is None,
    ensures
        follows_polls(question, events, n, offset) ==> follows_polls(
            question,
            events,
            n + 1,
            offset,
        ),
{
    if follows_polls(question, events, n, offset) {
        if forall|j: nat| j < n ==> #[trigger] poll_offset(question, events, j) is None {
            lemma_follows_on(question, events, n, offset);
        } else {
            let k = choose|k: nat|
                k < n && #[trigger] poll_offset(question, events, k) is Some && offset
                    == poll_offset(question, events, k) && forall|j: nat|
                    k < j < n ==> #[trigger] poll_offset(question, events, j) is None;
            assert(k < n + 1 && poll_offset(question, events, k) is Some);
        }
    }
}

/// The offset from which a session asks for updates is stored, if it has one: it was stored
/// before the session started, or the session was told that it is.
pub proof fn updates_are_read_from_a_stored_offset(
    question: QuestionView,
    events: spec_fn(nat) -> EventView,
    n: nat,
    offset: i64,
)
    requires
        course(question, events, n).0.facts.offset == Some(offset),
    ensures
        exists|k: nat|
            k < n && (#[trigger] offset_was_read(question, events, k, Some(offset)) || offset_was_stored(
                question,
                events,
                k,
                offset,
            ) || old_offset_was_stored(question, events, k, offset)),
    decreases n,
{
    let m = (n - 1) as nat;
    let before = course(question, events, m).0;
    if before.facts.offset == Some(offset) {
        updates_are_read_from_a_stored_offset(question, events, m, offset);
        let k = choose|k: nat|
            k < m && (#[trigger] offset_was_read(question, events, k, Some(offset))
                || offset_was_stored(question, events, k, offset) || old_offset_was_stored(
                question,
                events,
                k,
                offset,
            ));
        assert(k < n && (offset_was_read(question, events, k, Some(offset)) || offset_was_stored(
            question,
            events,
            k,
            offset,
        ) || old_offset_was_stored(question, events, k, offset)));
    } else {
        lemma_store_fits(question, events, m);
        lemma_settle_fits(question, events, m);
        assert(offset_was_read(question, events, m, Some(offset)) || offset_was_stored(
            question,
            events,
            m,
            offset,
        ) || old_offset_was_stored(question, events, m, offset));
    }
}

proof fn lemma_settle_fits(question: QuestionView, events: spec_fn(nat) -> EventView, n: nat)
    ensures
        course(question, events, n).0.phase matches PhaseView::Settling { next, .. } ==> course(
            question,
            events,
            n,
        ).1 matches ActionView::Settle { offset, .. } && offset == next,
{
}

/// Whether an action is a call of this method.
pub open spec fn calls(action: ActionView, method: Method) -> bool {
    action matches ActionView::Call(call) && call.method == method
}

/// Whether a session that waits in a phase has asked for something of the kind that it waits
/// for.
pub open spec fn asks_in(phase: PhaseView, action: ActionView) -> bool {
    match phase {
        PhaseView::Starting => action is CheckCancelled,
        PhaseView::FindingChat => action is FindChat,
        PhaseView::CheckingChat => calls(action, Method::GetChat),
        PhaseView::Locking => action is TakeLock,
        PhaseView::ReadingOffset => action is ReadOffset,
        PhaseView::Draining { .. } => calls(action, Method::GetUpdates),
        PhaseView::Settling { .. } => action is Settle,
        PhaseView::Ready => action is CheckCancelled,
        PhaseView::Naming => action is NameRequest,
        PhaseView::Sending => calls(action, Method::SendMessage),
        PhaseView::Recording => action is Record,
        PhaseView::StartingClock => action is StartClock,
        PhaseView::Waking => action is CheckCancelled,
        PhaseView::ReadingClock => action is ReadClock,
        PhaseView::Polling => calls(action, Method::GetUpdates),
        PhaseView::PollFailed { .. } => action is CheckCancelled,
        PhaseView::Polled { .. } => action is CheckCancelled,
        PhaseView::StoringOffset { .. } => action is StoreOffset,
        PhaseView::Answering { .. } => action is CheckCancelled,
        PhaseView::Acknowledging { .. } => calls(action, Method::AnswerCallbackQuery),
        PhaseView::ClosingAnswered { .. } => action is Close,
        PhaseView::ClosingExpired => action is Close,
        PhaseView::ClosingCancelled => action is Close,
        PhaseView::Finished => action is Finish,
    }
}

proof fn lemma_actions_fit(question: QuestionView, events: spec_fn(nat) -> EventView, n: nat)
    ensures
        asks_in(course(question, events, n).0.phase, course(question, events, n).1),
{
    if n > 0 {
        lemma_step_asks(course(question, events, (n - 1) as nat).0, events((n - 1) as nat));
    }
}

#[verifier::rlimit(50)]
proof fn lemma_step_asks(state: SessionView, event: EventView)
    ensures
        asks_in(step(state, event).0.phase, step(state, event).1),
{
}

/// Whether an event can come of an action. Of a call it can come that it failed only while the
/// question waits or is being closed.
pub open spec fn can_come_of(event: EventView, action: ActionView, waiting: bool) -> bool {
    match action {
        ActionView::CheckCancelled => event is Cancelled,
        ActionView::FindChat => event is Chat,
        ActionView::Call(call) => event is Reply || (event is Failed && waiting && call.method
            != Method::SendMessage),
        ActionView::TakeLock => event is Done,
        ActionView::ReadOffset => event is Offset,
        ActionView::Settle { .. } => event is Done,
        ActionView::NameRequest => event is Request,
        ActionView::Record { .. } => event is Done,
        ActionView::StartClock { .. } => event is Done,
        ActionView::ReadClock => event is Remaining,
        ActionView::StoreOffset(_) => event is Done,
        ActionView::Close(_) => event is Done || event is Failed,
        ActionView::Finish(_) => false,
    }
}

/// Whatever cannot come of the last action ends the session as failed: above all that
/// something failed that the question cannot do without.
pub proof fn what_does_not_fit_ends_a_session(
    question: QuestionView,
    events: spec_fn(nat) -> EventView,
    n: nat,
)
    requires
        ({
            let (state, action) = course(question, events, n);
            !can_come_of(events(n), action, past_sending(state.phase))
        }),
    ensures
        course(question, events, n + 1).1 == ActionView::Finish(OutcomeView::Failed),
{
    lemma_course_step(question, events, n);
    lemma_actions_fit(question, events, n);
}

/// A session begins by asking whether its caller still waits, then which chat to ask in, what
/// chat that is, for the lock, for the stored offset, and for old updates after it.
pub proof fn a_session_finds_out_where_to_ask(
    question: QuestionView,
    events: spec_fn(nat) -> EventView,
    n: nat,
)
    ensures
        course(question, events, 0).1 is CheckCancelled,
        events(0) == EventView::Cancelled(false) ==> course(question, events, 1).1 is FindChat,
        ({
            let (state, action) = course(question, events, n);
            let (next, then_asks) = course(question, events, n + 1);
            &&& action is FindChat ==> (events(n) matches EventView::Chat(chat) ==> then_asks
                == ActionView::Call(get_chat_view(chat)) && next.facts.chat == chat)
            &&& action is TakeLock && events(n) is Done ==> then_asks is ReadOffset
            &&& action is ReadOffset ==> (events(n) matches EventView::Offset(offset) ==> then_asks
                == ActionView::Call(get_updates_view(offset, 0)))
        }),
{
    lemma_course_step(question, events, 0);
    lemma_course_step(question, events, n);
    lemma_actions_fit(question, events, n);
}

/// What a session does once it knows what chat it is to ask in: it takes the lock exactly if the
/// chat is private and has a number, and else says why not.
pub proof fn a_session_goes_on_in_private_chats_only(
    question: QuestionView,
    events: spec_fn(nat) -> EventView,
    n: nat,
    details: Json,
)
    requires
        course(question, events, n).1 matches ActionView::Call(call) && call.method
            == Method::GetChat,
        events(n) == EventView::Reply(details),
    ensures
        ({
            let (next, then_asks) = course(question, events, n + 1);
            let kind = member(details, "type"@);
            let id = member(details, "id"@);
            if kind != Some(Json::Text("private"@)) {
                then_asks == ActionView::Finish(OutcomeView::Refused(AskError::NotPrivate))
            } else {
                match id {
                    Some(id) => match as_signed(id) {
                        Some(user_id) => then_asks is TakeLock && next.facts.user_id == user_id,
                        None => then_asks == ActionView::Finish(
                            OutcomeView::Refused(AskError::MissingChatId),
                        ),
                    },
                    None => then_asks == ActionView::Finish(
                        OutcomeView::Refused(AskError::MissingChatId),
                    ),
                }
            }
        }),
{
    lemma_course_step(question, events, n);
    lemma_actions_fit(question, events, n);
}

/// How many batches of old updates came with the first `n` events.
pub open spec fn batches_among(
    question: QuestionView,
    events: spec_fn(nat) -> EventView,
    n: nat,
) -> nat
    decreases n,
{
    if n == 0 {
        0
    } else {
        let before = batches_among(question, events, (n - 1) as nat);
        if old_updates(question, events, (n - 1) as nat) is Some {
            before + 1
        } else {
            before
        }
    }
}

proof fn lemma_batches_are_counted(question: QuestionView, events: spec_fn(nat) -> EventView, n: nat)
    ensures
        ({
            let state = course(question, events, n).0;
            match state.phase {
                PhaseView::Draining { batches } => batches_among(question, events, n) == batches,
                PhaseView::Settling { batches, full, .. } => n >= 1 && (old_updates(
                    question,
                    events,
                    (n - 1) as nat,
                ) matches Some(updates) && (full <==> updates.len() >= 100) && batches_among(
                    question,
                    events,
                    n,
                ) == batches + 1),
                _ => before_draining(state.phase) ==> batches_among(question, events, n) == 0,
            }
        }),
    decreases n,
{
    if n > 0 {
        lemma_batches_are_counted(question, events, (n - 1) as nat);
    }
}

/// Old updates are read until they end. Without any, and after a batch of fewer than a hundred
/// is dealt with, the session asks whether its caller still waits. After a full batch it asks
/// for more, unless that was the hundredth, and then gives up. Something else than a list of
/// updates ends it.
pub proof fn old_updates_are_read_until_they_end(
    question: QuestionView,
    events: spec_fn(nat) -> EventView,
    n: nat,
)
    ensures
        ({
            let (state, action) = course(question, events, n);
            let (next, then_asks) = course(question, events, n + 1);
            &&& requests_updates(action) && !past_sending(state.phase) ==> (
            events(n) matches EventView::Reply(reply) ==> match as_list(reply) {
                Some(updates) => updates.len() == 0 <==> then_asks is CheckCancelled,
                None => then_asks == ActionView::Finish(
                    OutcomeView::Refused(AskError::UpdatesNotArray),
                ),
            })
            &&& action is Settle && events(n) is Done ==> n >= 1 && (old_updates(
                question,
                events,
                (n - 1) as nat,
            ) matches Some(updates) && if updates.len() < 100 {
                then_asks is CheckCancelled
            } else if batches_among(question, events, n) < 100 {
                requests_updates(then_asks)
            } else {
                then_asks == ActionView::Finish(OutcomeView::Refused(AskError::TooManyUpdates))
            })
        }),
{
    lemma_course_step(question, events, n);
    lemma_actions_fit(question, events, n);
    lemma_batches_are_counted(question, events, n);
}

/// Once old updates are out of the way, a session whose caller still waits names its request and
/// sends its question under that name.
pub proof fn a_question_is_sent_under_its_name(
    question: QuestionView,
    events: spec_fn(nat) -> EventView,
    n: nat,
)
    ensures
        ({
            let (state, action) = course(question, events, n);
            let (next, then_asks) = course(question, events, n + 1);
            &&& action is CheckCancelled && n > 0 && !past_sending(state.phase) && events(n)
                == EventView::Cancelled(false) ==> then_asks is NameRequest
            &&& action is NameRequest ==> (events(n) matches EventView::Request { pid, nanos }
                ==> next.facts.pid == pid && next.facts.request_id == request_id_view(pid, nanos)
                && then_asks == ActionView::Call(
                send_question_view(
                    state.facts.chat,
                    question.text,
                    question.title,
                    request_id_view(pid, nanos),
                    question.choices,
                ),
            ))
        }),
{
    lemma_course_step(question, events, n);
    lemma_actions_fit(question, events, n);
    lemma_question_stays(question, events, n);
    if n > 0 {
        lemma_course_step(question, events, (n - 1) as nat);
    }
}

/// The event with this number told the session which process asks and what time it is.
pub open spec fn request_was_named(
    question: QuestionView,
    events: spec_fn(nat) -> EventView,
    k: nat,
    pid: u32,
    request_id: Seq<char>,
) -> bool {
    &&& course(question, events, k).1 is NameRequest
    &&& events(k) matches EventView::Request { pid: asker, nanos } && asker == pid && request_id
        == request_id_view(asker, nanos)
}

/// While a question waits, its process and the name of its request are those that the session
/// was told.
pub proof fn a_request_keeps_its_name(
    question: QuestionView,
    events: spec_fn(nat) -> EventView,
    n: nat,
)
    requires
        underway(course(question, events, n).0.phase),
    ensures
        ({
            let facts = course(question, events, n).0.facts;
            exists|k: nat|
                k < n && #[trigger] request_was_named(
                    question,
                    events,
                    k,
                    facts.pid,
                    facts.request_id,
                )
        }),
    decreases n,
{
    let m = (n - 1) as nat;
    lemma_actions_fit(question, events, m);
    let before = course(question, events, m).0;
    let after = course(question, events, n).0;
    if before.phase is Naming {
        assert(request_was_named(question, events, m, after.facts.pid, after.facts.request_id));
    } else {
        a_request_keeps_its_name(question, events, m);
        let k = choose|k: nat|
            k < m && #[trigger] request_was_named(
                question,
                events,
                k,
                before.facts.pid,
                before.facts.request_id,
            );
        assert(request_was_named(question, events, k, after.facts.pid, after.facts.request_id));
    }
}

/// A question stays as it was asked for as long as its session lasts.
pub proof fn a_question_stays_as_it_was_asked(
    question: QuestionView,
    events: spec_fn(nat) -> EventView,
    n: nat,
)
    ensures
        course(question, events, n).0.facts.question == question,
{
    lemma_question_stays(question, events, n);
}

/// Once its question is sent, a session records it by the number that Telegram gives, or says
/// that there is none. When that is done it starts the clock for as long as the question may
/// wait, and then asks whether its caller still waits.
pub proof fn a_sent_question_starts_to_wait(
    question: QuestionView,
    events: spec_fn(nat) -> EventView,
    n: nat,
)
    ensures
        ({
            let (state, action) = course(question, events, n);
            let (next, then_asks) = course(question, events, n + 1);
            &&& sends(action) ==> (events(n) matches EventView::Reply(sent) ==> match member(
                sent,
                "message_id"@,
            ) {
                Some(id) => match as_signed(id) {
                    Some(message_id) => next.facts.message_id == message_id && then_asks == (
                    ActionView::Record { pid: state.facts.pid, chat: state.facts.chat, message_id }),
                    None => then_asks == ActionView::Finish(
                        OutcomeView::Refused(AskError::MissingMessageId),
                    ),
                },
                None => then_asks == ActionView::Finish(
                    OutcomeView::Refused(AskError::MissingMessageId),
                ),
            })
            &&& action is Record && events(n) is Done ==> then_asks == (ActionView::StartClock {
                timeout_secs: question.timeout_secs,
            })
            &&& action is StartClock && events(n) is Done ==> then_asks is CheckCancelled
                && next.phase is Waking
        }),
{
    lemma_course_step(question, events, n);
    lemma_actions_fit(question, events, n);
    lemma_question_stays(question, events, n);
}

/// While its caller waits and time is left, a session polls. When no time is left it closes the
/// message and says that the question expired, and whether the message shows it.
pub proof fn a_session_polls_while_time_is_left(
    question: QuestionView,
    events: spec_fn(nat) -> EventView,
    n: nat,
)
    ensures
        ({
            let (state, action) = course(question, events, n);
            let (next, then_asks) = course(question, events, n + 1);
            &&& state.phase is Waking && events(n) == EventView::Cancelled(false) ==> then_asks
                is ReadClock
            &&& action is ReadClock ==> (events(n) matches EventView::Remaining(remaining) ==> if (
            remaining.secs == 0 && remaining.nanos == 0) {
                &&& then_asks == ActionView::Close(
                    edit_question_view(
                        state.facts.chat,
                        state.facts.message_id,
                        expired_view(
                            question.text,
                            question.title,
                            wait_view(question.timeout_secs as nat),
                        ),
                    ),
                )
                &&& events(n + 1) is Done || events(n + 1) is Failed ==> course(
                    question,
                    events,
                    n + 2,
                ).1 == ActionView::Finish(
                    OutcomeView::Refused(
                        AskError::Expired {
                            timeout_secs: question.timeout_secs,
                            closed: events(n + 1) is Done,
                        },
                    ),
                )
            } else {
                next.phase is Polling && then_asks == ActionView::Call(
                    get_updates_view(state.facts.offset, poll_secs(remaining)),
                )
            })
        }),
{
    lemma_course_step(question, events, n);
    lemma_course_step(question, events, n + 1);
    lemma_actions_fit(question, events, n);
    lemma_question_stays(question, events, n);
}

/// A poll that failed ends the session of a caller who still waits as failed, and one that
/// brought something else than updates ends it with word of that.
pub proof fn a_failed_poll_ends_the_wait(
    question: QuestionView,
    events: spec_fn(nat) -> EventView,
    n: nat,
)
    requires
        course(question, events, n).0.phase is Polling,
        events(n + 1) == EventView::Cancelled(false),
    ensures
        events(n) is Failed ==> course(question, events, n + 2).1 == ActionView::Finish(
            OutcomeView::Failed,
        ),
        events(n) matches EventView::Reply(reply) && as_list(reply) is None ==> course(
            question,
            events,
            n + 2,
        ).1 == ActionView::Finish(OutcomeView::Refused(AskError::UpdatesNotArray)),
{
    lemma_course_step(question, events, n);
    lemma_course_step(question, events, n + 1);
}

/// When the updates of a poll have been read for a caller who still waits: at once, or when the
/// offset after them is stored if they have one.
pub open spec fn poll_is_read_at(
    question: QuestionView,
    events: spec_fn(nat) -> EventView,
    k: nat,
    m: nat,
) -> bool {
    &&& poll_updates(question, events, k) is Some
    &&& events(k + 1) == EventView::Cancelled(false)
    &&& match poll_offset(question, events, k) {
        Some(_) => m == k + 3 && events(k + 2) is Done,
        None => m == k + 2,
    }
}

/// What comes of a poll: the offset after its updates is stored if they have one, and then the
/// session asks whether its caller still waits. If they do, it takes the first answer to its
/// question, and goes on waiting if there is none.
pub proof fn the_first_answer_of_a_poll_is_taken(
    question: QuestionView,
    events: spec_fn(nat) -> EventView,
    k: nat,
    m: nat,
)
    requires
        poll_is_read_at(question, events, k, m),
    ensures
        poll_offset(question, events, k) matches Some(offset) ==> course(
            question,
            events,
            k + 2,
        ).1 == ActionView::StoreOffset(offset) && course(question, events, m).0.facts.offset
            == Some(offset),
        course(question, events, m).1 is CheckCancelled,
        ({
            let state = course(question, events, m).0;
            match first_answer_view(
                poll_updates(question, events, k)->0,
                state.facts.user_id,
                state.facts.request_id,
                question.choices,
            ) {
                Some(answer) => state.phase == (PhaseView::Answering { answer }),
                None => state.phase is Waking,
            }
        }),
{
    lemma_course_step(question, events, k);
    lemma_course_step(question, events, k + 1);
    lemma_course_step(question, events, k + 2);
    lemma_question_stays(question, events, k);
}

/// An answer that its caller still waits for is shown and reported: a press is acknowledged
/// first, then the message shows the answer, and then the session ends with it, whether or not
/// showing it worked.
pub proof fn an_answer_is_shown_and_reported(
    question: QuestionView,
    events: spec_fn(nat) -> EventView,
    k: nat,
    m: nat,
    answer: AnswerView,
)
    requires
        was_still_awaited(question, events, k, answer),
        match answer {
            AnswerView::Choice { .. } => m == k + 2 && (events(k + 1) is Reply || events(k + 1)
                is Failed),
            AnswerView::Text(_) => m == k + 1,
        },
    ensures
        ({
            let facts = course(question, events, k).0.facts;
            &&& answer matches AnswerView::Choice { callback_query_id, .. }
                ==> press_was_acknowledged(question, events, k + 1, callback_query_id)
            &&& course(question, events, m).1 == ActionView::Close(
                edit_question_view(
                    facts.chat,
                    facts.message_id,
                    answered_view(question.text, question.title, answer.text()),
                ),
            )
            &&& events(m) is Done || events(m) is Failed ==> course(question, events, m + 1).1
                == ActionView::Finish(OutcomeView::Answered(answer.text()))
        }),
{
    lemma_course_step(question, events, k);
    lemma_course_step(question, events, k + 1);
    lemma_course_step(question, events, m);
    lemma_question_stays(question, events, k);
}

} // verus!
