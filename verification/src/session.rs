//! Asking a question, one step at a time.
//!
//! A [`Session`] decides what happens; its caller does it. Each [`Action`] is something for
//! the caller to do, and the [`Event`] that comes of it leads to the next action, until the
//! session finishes.

use crate::call::{
    answer_callback, answer_callback_view, cancel_question, edit_question_view, expire_question,
    get_chat, get_chat_view, get_updates, get_updates_view, mark_answered, request_id,
    request_id_view, send_question, send_question_view, Call, CallView, UPDATE_LIMIT,
};
use crate::error::AskError;
use crate::json::{as_list, json_of, jsons_of, member, Json};
use crate::lock::Span;
use crate::message::{answered_view, cancelled_view, expired_view, wait_label, wait_view};
use crate::question::{Question, QuestionView};
use crate::update::{
    answer_view, answers_are_choices_or_words, dismiss_stale_callback, dismissal_view,
    ensure_private_chat, first_answer, first_answer_view, has_next_offset, lemma_jsons_of_one_more,
    next_offset, next_offset_view, offset_fits, offset_passes_exactly_the_updates,
    only_the_last_number_leaves_no_room, private_chat_view, read_message_id, read_updates,
    sent_message_view, AnswerView, Dismissal, DismissalView, IncomingAnswer,
};
use serde_json::Value;
use vstd::prelude::*;

verus! {

/// The longest that one request for updates waits, in seconds.
pub const POLL_TIMEOUT_SECS: u64 = 10;

/// How many batches of old updates are read before giving up.
pub const MAX_PENDING_BATCHES: usize = 100;

/// What is known of a question that is being asked. What Telegram or the caller has not said
/// yet is zero or empty.
#[derive(Debug)]
pub struct Facts {
    pub question: Question,
    pub chat: String,
    pub user_id: i64,
    pub offset: Option<i64>,
    pub pid: u32,
    pub request_id: String,
    pub message_id: i64,
}

/// What is known of a question that is being asked, as plain text.
#[verifier::ext_equal]
pub struct FactsView {
    pub question: QuestionView,
    pub chat: Seq<char>,
    pub user_id: i64,
    pub offset: Option<i64>,
    pub pid: u32,
    pub request_id: Seq<char>,
    pub message_id: i64,
}

impl View for Facts {
    type V = FactsView;

    open spec fn view(&self) -> FactsView {
        FactsView {
            question: self.question@,
            chat: self.chat@,
            user_id: self.user_id,
            offset: self.offset,
            pid: self.pid,
            request_id: self.request_id@,
            message_id: self.message_id,
        }
    }
}

/// What a session waits for.
#[derive(Debug)]
pub enum Phase {
    /// Whether the caller still wants to ask.
    Starting,
    /// Which chat the question goes to.
    FindingChat,
    /// What kind of chat that is.
    CheckingChat,
    /// The lock.
    Locking,
    /// Up to where updates were read before.
    ReadingOffset,
    /// A batch of old updates, after `batches` others.
    Draining { batches: usize },
    /// That a batch of old updates is dealt with; whether it was full, and what comes after it.
    Settling { batches: usize, full: bool, next: Option<i64> },
    /// Whether the caller still wants to ask, now that old updates are out of the way.
    Ready,
    /// What to call the request.
    Naming,
    /// Which message the question is.
    Sending,
    /// That the lock file says where the question is.
    Recording,
    /// That the clock runs.
    StartingClock,
    /// Whether the caller still waits.
    Waking,
    /// How much time is left.
    ReadingClock,
    /// New updates.
    Polling,
    /// Whether the caller still waits, after a poll failed: for this reason, or for one that
    /// the caller knows.
    PollFailed { error: Option<AskError> },
    /// Whether the caller still waits, before what a poll brought is read.
    Polled { reply: Value },
    /// That the offset is stored.
    StoringOffset { offset: i64, found: Option<IncomingAnswer> },
    /// Whether the caller still waits for this answer.
    Answering { answer: IncomingAnswer },
    /// That the button shows that the answer was received.
    Acknowledging { text: String },
    /// That the message shows the answer.
    ClosingAnswered { text: String },
    /// That the message shows that the question expired.
    ClosingExpired,
    /// That the message shows that the question was withdrawn.
    ClosingCancelled,
    /// Nothing.
    Finished,
}

/// What a session waits for, as plain text.
#[verifier::ext_equal]
pub enum PhaseView {
    Starting,
    FindingChat,
    CheckingChat,
    Locking,
    ReadingOffset,
    Draining { batches: nat },
    Settling { batches: nat, full: bool, next: Option<i64> },
    Ready,
    Naming,
    Sending,
    Recording,
    StartingClock,
    Waking,
    ReadingClock,
    Polling,
    PollFailed { error: Option<AskError> },
    Polled { reply: Json },
    StoringOffset { offset: i64, found: Option<AnswerView> },
    Answering { answer: AnswerView },
    Acknowledging { text: Seq<char> },
    ClosingAnswered { text: Seq<char> },
    ClosingExpired,
    ClosingCancelled,
    Finished,
}

impl View for Phase {
    type V = PhaseView;

    open spec fn view(&self) -> PhaseView {
        match *self {
            Phase::Starting => PhaseView::Starting,
            Phase::FindingChat => PhaseView::FindingChat,
            Phase::CheckingChat => PhaseView::CheckingChat,
            Phase::Locking => PhaseView::Locking,
            Phase::ReadingOffset => PhaseView::ReadingOffset,
            Phase::Draining { batches } => PhaseView::Draining { batches: batches as nat },
            Phase::Settling { batches, full, next } => PhaseView::Settling {
                batches: batches as nat,
                full,
                next,
            },
            Phase::Ready => PhaseView::Ready,
            Phase::Naming => PhaseView::Naming,
            Phase::Sending => PhaseView::Sending,
            Phase::Recording => PhaseView::Recording,
            Phase::StartingClock => PhaseView::StartingClock,
            Phase::Waking => PhaseView::Waking,
            Phase::ReadingClock => PhaseView::ReadingClock,
            Phase::Polling => PhaseView::Polling,
            Phase::PollFailed { error } => PhaseView::PollFailed { error },
            Phase::Polled { reply } => PhaseView::Polled { reply: json_of(reply) },
            Phase::StoringOffset { offset, found } => PhaseView::StoringOffset {
                offset,
                found: answer_view(found),
            },
            Phase::Answering { answer } => PhaseView::Answering { answer: answer@ },
            Phase::Acknowledging { text } => PhaseView::Acknowledging { text: text@ },
            Phase::ClosingAnswered { text } => PhaseView::ClosingAnswered { text: text@ },
            Phase::ClosingExpired => PhaseView::ClosingExpired,
            Phase::ClosingCancelled => PhaseView::ClosingCancelled,
            Phase::Finished => PhaseView::Finished,
        }
    }
}

/// A question that is being asked.
#[derive(Debug)]
pub struct Session {
    pub facts: Facts,
    pub phase: Phase,
}

/// A question that is being asked, as plain text.
#[verifier::ext_equal]
pub struct SessionView {
    pub facts: FactsView,
    pub phase: PhaseView,
}

impl View for Session {
    type V = SessionView;

    open spec fn view(&self) -> SessionView {
        SessionView { facts: self.facts@, phase: self.phase@ }
    }
}

/// What came of an action.
#[derive(Debug)]
pub enum Event {
    /// Whether the caller stopped waiting.
    Cancelled(bool),
    /// The chat to ask in.
    Chat(String),
    /// Telegram's reply to a call.
    Reply(Value),
    /// Up to where updates were read before.
    Offset(Option<i64>),
    /// The process that asks, and the time in nanoseconds.
    Request { pid: u32, nanos: u128 },
    /// How much time is left.
    Remaining(Span),
    /// It is done.
    Done,
    /// It failed.
    Failed,
}

/// What came of an action, with what a reply holds.
#[verifier::ext_equal]
pub enum EventView {
    Cancelled(bool),
    Chat(Seq<char>),
    Reply(Json),
    Offset(Option<i64>),
    Request { pid: u32, nanos: u128 },
    Remaining(Span),
    Done,
    Failed,
}

impl View for Event {
    type V = EventView;

    open spec fn view(&self) -> EventView {
        match *self {
            Event::Cancelled(cancelled) => EventView::Cancelled(cancelled),
            Event::Chat(chat) => EventView::Chat(chat@),
            Event::Reply(reply) => EventView::Reply(json_of(reply)),
            Event::Offset(offset) => EventView::Offset(offset),
            Event::Request { pid, nanos } => EventView::Request { pid, nanos },
            Event::Remaining(span) => EventView::Remaining(span),
            Event::Done => EventView::Done,
            Event::Failed => EventView::Failed,
        }
    }
}

/// How a session ends.
#[derive(Debug)]
pub enum Outcome {
    /// With an answer.
    Answered(String),
    /// Without one, for this reason.
    Refused(AskError),
    /// Without one, because something that the caller did for it failed.
    Failed,
}

/// How a session ends, as plain text.
#[verifier::ext_equal]
pub enum OutcomeView {
    Answered(Seq<char>),
    Refused(AskError),
    Failed,
}

impl View for Outcome {
    type V = OutcomeView;

    open spec fn view(&self) -> OutcomeView {
        match *self {
            Outcome::Answered(text) => OutcomeView::Answered(text@),
            Outcome::Refused(error) => OutcomeView::Refused(error),
            Outcome::Failed => OutcomeView::Failed,
        }
    }
}

/// What the caller of a session is to do.
#[derive(Debug)]
pub enum Action {
    /// Say whether the caller stopped waiting.
    CheckCancelled,
    /// Say which chat to ask in.
    FindChat,
    /// Make a call.
    Call(Call),
    /// Take the lock, or fail.
    TakeLock,
    /// Say up to where updates were read before.
    ReadOffset,
    /// Close old buttons, whether or not that works, and then store the offset if there is one.
    Settle { dismissals: Vec<Dismissal>, offset: Option<i64> },
    /// Say which process asks, and what time it is.
    NameRequest,
    /// Record in the lock file where the question is.
    Record { pid: u32, chat: String, message_id: i64 },
    /// Let the clock run for so many seconds.
    StartClock { timeout_secs: u64 },
    /// Say how much time is left.
    ReadClock,
    /// Store the offset.
    StoreOffset(i64),
    /// Make a call that closes the question, and try again if it fails.
    Close(Call),
    /// Release the lock and report the outcome.
    Finish(Outcome),
}

/// What the caller of a session is to do, with what calls hold.
#[verifier::ext_equal]
pub enum ActionView {
    CheckCancelled,
    FindChat,
    Call(CallView),
    TakeLock,
    ReadOffset,
    Settle { dismissals: Seq<DismissalView>, offset: Option<i64> },
    NameRequest,
    Record { pid: u32, chat: Seq<char>, message_id: i64 },
    StartClock { timeout_secs: u64 },
    ReadClock,
    StoreOffset(i64),
    Close(CallView),
    Finish(OutcomeView),
}

/// What closes each of several buttons, with what the calls hold.
pub open spec fn each_dismissal(dismissals: Seq<Dismissal>) -> Seq<DismissalView> {
    dismissals.map_values(|dismissal: Dismissal| dismissal@)
}

impl View for Action {
    type V = ActionView;

    open spec fn view(&self) -> ActionView {
        match *self {
            Action::CheckCancelled => ActionView::CheckCancelled,
            Action::FindChat => ActionView::FindChat,
            Action::Call(call) => ActionView::Call(call@),
            Action::TakeLock => ActionView::TakeLock,
            Action::ReadOffset => ActionView::ReadOffset,
            Action::Settle { dismissals, offset } => ActionView::Settle {
                dismissals: each_dismissal(dismissals@),
                offset,
            },
            Action::NameRequest => ActionView::NameRequest,
            Action::Record { pid, chat, message_id } => ActionView::Record {
                pid,
                chat: chat@,
                message_id,
            },
            Action::StartClock { timeout_secs } => ActionView::StartClock { timeout_secs },
            Action::ReadClock => ActionView::ReadClock,
            Action::StoreOffset(offset) => ActionView::StoreOffset(offset),
            Action::Close(call) => ActionView::Close(call@),
            Action::Finish(outcome) => ActionView::Finish(outcome@),
        }
    }
}

/// A session at its start.
pub open spec fn started(question: QuestionView) -> SessionView {
    SessionView {
        facts: FactsView {
            question,
            chat: Seq::empty(),
            user_id: 0,
            offset: None,
            pid: 0,
            request_id: Seq::empty(),
            message_id: 0,
        },
        phase: PhaseView::Starting,
    }
}

/// The end of a session.
pub open spec fn finish(facts: FactsView, outcome: OutcomeView) -> (SessionView, ActionView) {
    (SessionView { facts, phase: PhaseView::Finished }, ActionView::Finish(outcome))
}

/// Going on to wait for something.
pub open spec fn go(facts: FactsView, phase: PhaseView, action: ActionView) -> (
    SessionView,
    ActionView,
) {
    (SessionView { facts, phase }, action)
}

/// What closes the buttons that were pressed in old updates.
pub open spec fn dismissals_view(updates: Seq<Json>, user_id: i64) -> Seq<DismissalView>
    decreases updates.len(),
{
    if updates.len() == 0 {
        Seq::empty()
    } else {
        let rest = dismissals_view(updates.drop_last(), user_id);
        match dismissal_view(updates.last(), user_id) {
            Some(dismissal) => rest.push(dismissal),
            None => rest,
        }
    }
}

/// The offset after a batch of updates.
pub open spec fn offset_after(updates: Seq<Json>) -> Option<i64> {
    match next_offset_view(updates) {
        Some(next) => Some(next as i64),
        None => None,
    }
}

/// How long to wait for updates when so much time is left: at least a second, and no longer
/// than one request may.
pub open spec fn poll_secs(remaining: Span) -> u64 {
    if remaining.secs < 1 {
        1
    } else if remaining.secs > POLL_TIMEOUT_SECS {
        POLL_TIMEOUT_SECS
    } else {
        remaining.secs
    }
}

/// The question is withdrawn: its message is to show that.
pub open spec fn withdraw(facts: FactsView) -> (SessionView, ActionView) {
    go(
        facts,
        PhaseView::ClosingCancelled,
        ActionView::Close(
            edit_question_view(
                facts.chat,
                facts.message_id,
                cancelled_view(facts.question.text, facts.question.title),
            ),
        ),
    )
}

/// The question expired: its message is to show that.
pub open spec fn expire(facts: FactsView) -> (SessionView, ActionView) {
    go(
        facts,
        PhaseView::ClosingExpired,
        ActionView::Close(
            edit_question_view(
                facts.chat,
                facts.message_id,
                expired_view(
                    facts.question.text,
                    facts.question.title,
                    wait_view(facts.question.timeout_secs as nat),
                ),
            ),
        ),
    )
}

/// The question is answered: its message is to show that.
pub open spec fn show_answer(facts: FactsView, text: Seq<char>) -> (SessionView, ActionView) {
    go(
        facts,
        PhaseView::ClosingAnswered { text },
        ActionView::Close(
            edit_question_view(
                facts.chat,
                facts.message_id,
                answered_view(facts.question.text, facts.question.title, text),
            ),
        ),
    )
}

/// After a poll: an answer is taken if the caller still waits, else the wait goes on.
pub open spec fn heed(facts: FactsView, answer: Option<AnswerView>) -> (SessionView, ActionView) {
    go(
        facts,
        match answer {
            Some(answer) => PhaseView::Answering { answer },
            None => PhaseView::Waking,
        },
        ActionView::CheckCancelled,
    )
}

/// The caller still waits for an answer: the button it was given with, if there is one, is to
/// show that it was received, and then the message is to show the answer.
pub open spec fn acknowledge(facts: FactsView, answer: AnswerView) -> (SessionView, ActionView) {
    match answer {
        AnswerView::Choice { text, callback_query_id } => go(
            facts,
            PhaseView::Acknowledging { text },
            ActionView::Call(
                answer_callback_view(callback_query_id, "🟢 Answer received."@, None),
            ),
        ),
        AnswerView::Text(text) => show_answer(facts, text),
    }
}

/// A poll has come back.
pub open spec fn polled(facts: FactsView, reply: Json) -> (SessionView, ActionView) {
    go(
        facts,
        match as_list(reply) {
            Some(_) => PhaseView::Polled { reply },
            None => PhaseView::PollFailed { error: Some(AskError::UpdatesNotArray) },
        },
        ActionView::CheckCancelled,
    )
}

/// The caller still waits for what a poll brought: the offset after it is to be stored if there
/// is one, and the first answer in it is heeded.
pub open spec fn read_updates_of(facts: FactsView, reply: Json) -> (SessionView, ActionView) {
    match as_list(reply) {
        Some(updates) => {
            let found = first_answer_view(
                updates,
                facts.user_id,
                facts.request_id,
                facts.question.choices,
            );
            match offset_after(updates) {
                Some(offset) => go(
                    facts,
                    PhaseView::StoringOffset { offset, found },
                    ActionView::StoreOffset(offset),
                ),
                None => heed(facts, found),
            }
        },
        None => finish(facts, OutcomeView::Refused(AskError::UpdatesNotArray)),
    }
}

/// A batch of old updates has come.
pub open spec fn drain(facts: FactsView, batches: nat, updates: Seq<Json>) -> (
    SessionView,
    ActionView,
) {
    if updates.len() == 0 {
        go(facts, PhaseView::Ready, ActionView::CheckCancelled)
    } else {
        go(
            facts,
            PhaseView::Settling {
                batches,
                full: updates.len() >= UPDATE_LIMIT,
                next: offset_after(updates),
            },
            ActionView::Settle {
                dismissals: dismissals_view(updates, facts.user_id),
                offset: offset_after(updates),
            },
        )
    }
}

/// A batch of old updates is dealt with.
pub open spec fn drained(facts: FactsView, batches: nat, full: bool, next: Option<i64>) -> (
    SessionView,
    ActionView,
) {
    let facts = match next {
        Some(next) => FactsView { offset: Some(next), ..facts },
        None => facts,
    };
    if !full {
        go(facts, PhaseView::Ready, ActionView::CheckCancelled)
    } else if batches + 1 < MAX_PENDING_BATCHES {
        go(
            facts,
            PhaseView::Draining { batches: batches + 1 },
            ActionView::Call(get_updates_view(facts.offset, 0)),
        )
    } else {
        finish(facts, OutcomeView::Refused(AskError::TooManyUpdates))
    }
}

/// The next step of a session. What is not an answer to its last action counts as a failure.
pub open spec fn step(state: SessionView, event: EventView) -> (SessionView, ActionView) {
    let facts = state.facts;
    match (state.phase, event) {
        (PhaseView::Starting, EventView::Cancelled(cancelled)) => if cancelled {
            finish(facts, OutcomeView::Refused(AskError::CancelledBeforeSend))
        } else {
            go(facts, PhaseView::FindingChat, ActionView::FindChat)
        },
        (PhaseView::FindingChat, EventView::Chat(chat)) => go(
            FactsView { chat, ..facts },
            PhaseView::CheckingChat,
            ActionView::Call(get_chat_view(chat)),
        ),
        (PhaseView::CheckingChat, EventView::Reply(details)) => match private_chat_view(details) {
            Ok(user_id) => go(
                FactsView { user_id, ..facts },
                PhaseView::Locking,
                ActionView::TakeLock,
            ),
            Err(error) => finish(facts, OutcomeView::Refused(error)),
        },
        (PhaseView::Locking, EventView::Done) => go(
            facts,
            PhaseView::ReadingOffset,
            ActionView::ReadOffset,
        ),
        (PhaseView::ReadingOffset, EventView::Offset(offset)) => go(
            FactsView { offset, ..facts },
            PhaseView::Draining { batches: 0 },
            ActionView::Call(get_updates_view(offset, 0)),
        ),
        (PhaseView::Draining { batches }, EventView::Reply(reply)) => match as_list(reply) {
            Some(updates) => drain(facts, batches, updates),
            None => finish(facts, OutcomeView::Refused(AskError::UpdatesNotArray)),
        },
        (PhaseView::Settling { batches, full, next }, EventView::Done) => drained(
            facts,
            batches,
            full,
            next,
        ),
        (PhaseView::Ready, EventView::Cancelled(cancelled)) => if cancelled {
            finish(facts, OutcomeView::Refused(AskError::CancelledBeforeSend))
        } else {
            go(facts, PhaseView::Naming, ActionView::NameRequest)
        },
        (PhaseView::Naming, EventView::Request { pid, nanos }) => go(
            FactsView { pid, request_id: request_id_view(pid, nanos), ..facts },
            PhaseView::Sending,
            ActionView::Call(
                send_question_view(
                    facts.chat,
                    facts.question.text,
                    facts.question.title,
                    request_id_view(pid, nanos),
                    facts.question.choices,
                ),
            ),
        ),
        (PhaseView::Sending, EventView::Reply(sent)) => match sent_message_view(sent) {
            Ok(message_id) => go(
                FactsView { message_id, ..facts },
                PhaseView::Recording,
                ActionView::Record { pid: facts.pid, chat: facts.chat, message_id },
            ),
            Err(error) => finish(facts, OutcomeView::Refused(error)),
        },
        (PhaseView::Recording, EventView::Done) => go(
            facts,
            PhaseView::StartingClock,
            ActionView::StartClock { timeout_secs: facts.question.timeout_secs },
        ),
        (PhaseView::StartingClock, EventView::Done) => go(
            facts,
            PhaseView::Waking,
            ActionView::CheckCancelled,
        ),
        (PhaseView::Waking, EventView::Cancelled(cancelled)) => if cancelled {
            withdraw(facts)
        } else {
            go(facts, PhaseView::ReadingClock, ActionView::ReadClock)
        },
        (PhaseView::ReadingClock, EventView::Remaining(remaining)) => if remaining.secs == 0
            && remaining.nanos == 0 {
            expire(facts)
        } else {
            go(
                facts,
                PhaseView::Polling,
                ActionView::Call(get_updates_view(facts.offset, poll_secs(remaining))),
            )
        },
        (PhaseView::Polling, EventView::Reply(reply)) => polled(facts, reply),
        (PhaseView::Polling, EventView::Failed) => go(
            facts,
            PhaseView::PollFailed { error: None },
            ActionView::CheckCancelled,
        ),
        (PhaseView::PollFailed { error }, EventView::Cancelled(cancelled)) => if cancelled {
            withdraw(facts)
        } else {
            match error {
                Some(error) => finish(facts, OutcomeView::Refused(error)),
                None => finish(facts, OutcomeView::Failed),
            }
        },
        (PhaseView::Polled { reply }, EventView::Cancelled(cancelled)) => if cancelled {
            withdraw(facts)
        } else {
            read_updates_of(facts, reply)
        },
        (PhaseView::StoringOffset { offset, found }, EventView::Done) => heed(
            FactsView { offset: Some(offset), ..facts },
            found,
        ),
        (PhaseView::Answering { answer }, EventView::Cancelled(cancelled)) => if cancelled {
            withdraw(facts)
        } else {
            acknowledge(facts, answer)
        },
        (PhaseView::Acknowledging { text }, EventView::Reply(_)) => show_answer(facts, text),
        (PhaseView::Acknowledging { text }, EventView::Failed) => show_answer(facts, text),
        (PhaseView::ClosingAnswered { text }, EventView::Done) => finish(
            facts,
            OutcomeView::Answered(text),
        ),
        (PhaseView::ClosingAnswered { text }, EventView::Failed) => finish(
            facts,
            OutcomeView::Answered(text),
        ),
        (PhaseView::ClosingExpired, EventView::Done) => finish(
            facts,
            OutcomeView::Refused(
                AskError::Expired { timeout_secs: facts.question.timeout_secs, closed: true },
            ),
        ),
        (PhaseView::ClosingExpired, EventView::Failed) => finish(
            facts,
            OutcomeView::Refused(
                AskError::Expired { timeout_secs: facts.question.timeout_secs, closed: false },
            ),
        ),
        (PhaseView::ClosingCancelled, EventView::Done) => finish(
            facts,
            OutcomeView::Refused(AskError::Cancelled { closed: true }),
        ),
        (PhaseView::ClosingCancelled, EventView::Failed) => finish(
            facts,
            OutcomeView::Refused(AskError::Cancelled { closed: false }),
        ),
        _ => finish(facts, OutcomeView::Failed),
    }
}

/// Whether an answer is one that the question can have: one of its choices, or words.
pub open spec fn can_answer(question: QuestionView, answer: AnswerView) -> bool {
    match answer {
        AnswerView::Choice { text, .. } => question.choices.contains(text),
        AnswerView::Text(text) => text.len() > 0,
    }
}

impl SessionView {
    /// Whether the session can go on: its question may be asked, it has not read more old
    /// updates than it may, what it takes for updates is a list, and what it takes for an
    /// answer is one.
    pub open spec fn wf(self) -> bool {
        &&& self.facts.question.wf()
        &&& match self.phase {
            PhaseView::Draining { batches } => batches < MAX_PENDING_BATCHES,
            PhaseView::Settling { batches, .. } => batches < MAX_PENDING_BATCHES,
            PhaseView::Polled { reply } => as_list(reply) is Some,
            PhaseView::StoringOffset { found: Some(answer), .. } => can_answer(
                self.facts.question,
                answer,
            ),
            PhaseView::Answering { answer } => can_answer(self.facts.question, answer),
            PhaseView::Acknowledging { text } => text.len() > 0,
            PhaseView::ClosingAnswered { text } => text.len() > 0,
            _ => true,
        }
    }
}

/// How long one request waits: the whole seconds that are left, but at least one and at most
/// ten.
pub proof fn polls_wait_for_the_seconds_that_are_left(remaining: Span)
    ensures
        1 <= remaining.secs <= 10 ==> poll_secs(remaining) == remaining.secs,
        remaining.secs == 0 ==> poll_secs(remaining) == 1,
        remaining.secs > 10 ==> poll_secs(remaining) == 10,
{
}

/// Each old press that is to be closed is closed, and nothing else: what is done about two
/// batches is what is done about the first and then about the second.
pub proof fn every_old_press_is_closed(update: Json, updates: Seq<Json>, more: Seq<Json>, user_id: i64)
    ensures
        dismissals_view(Seq::empty(), user_id).len() == 0,
        match dismissal_view(update, user_id) {
            Some(dismissal) => dismissals_view(seq![update], user_id) == seq![dismissal],
            None => dismissals_view(seq![update], user_id).len() == 0,
        },
        dismissals_view(updates + more, user_id) == dismissals_view(updates, user_id)
            + dismissals_view(more, user_id),
    decreases more.len(),
{
    reveal_with_fuel(dismissals_view, 2);
    assert(seq![update].drop_last() =~= Seq::<Json>::empty());
    assert(Seq::<DismissalView>::empty().push(dismissal_view(update, user_id)->0) =~= seq![
        dismissal_view(update, user_id)->0,
    ]);
    if more.len() == 0 {
        assert(updates + more =~= updates);
        assert(dismissals_view(updates, user_id) + dismissals_view(more, user_id)
            =~= dismissals_view(updates, user_id));
    } else {
        every_old_press_is_closed(update, updates, more.drop_last(), user_id);
        assert((updates + more).drop_last() =~= updates + more.drop_last());
        assert(dismissals_view(updates + more, user_id) =~= dismissals_view(updates, user_id)
            + dismissals_view(more, user_id));
    }
}

/// The offset after a batch is the number that comes after those of all its updates.
pub proof fn offsets_are_the_next_number(updates: Seq<Json>)
    requires
        offset_fits(updates),
    ensures
        match offset_after(updates) {
            Some(offset) => next_offset_view(updates) == Some(offset as int),
            None => next_offset_view(updates) is None,
        },
{
    offset_passes_exactly_the_updates(updates);
}

/// Whether a number is left after those of the updates that a reply lists, if it lists any.
pub open spec fn has_room_after(reply: Json) -> bool {
    match as_list(reply) {
        Some(updates) => offset_fits(updates),
        None => true,
    }
}

/// Whether the offset that a step computes, if it computes one, fits 64 bits: a step does so
/// when a batch of old updates comes, and when a poll is read for a caller who still waits.
pub open spec fn offset_has_room(state: SessionView, event: EventView) -> bool {
    match (state.phase, event) {
        (PhaseView::Draining { .. }, EventView::Reply(reply)) => has_room_after(reply),
        (PhaseView::Polled { reply }, EventView::Cancelled(false)) => has_room_after(reply),
        _ => true,
    }
}

/// The updates after which a step computes an offset, if it computes one.
pub open spec fn updates_to_pass(state: SessionView, event: EventView) -> Option<Seq<Json>> {
    match (state.phase, event) {
        (PhaseView::Draining { .. }, EventView::Reply(reply)) => as_list(reply),
        (PhaseView::Polled { reply }, EventView::Cancelled(false)) => as_list(reply),
        _ => None,
    }
}

/// Only an update with the last number of 64 bits leaves a session without a next offset, and
/// only where one is computed: when a batch of old updates comes, and when a poll is read for a
/// caller who still waits.
pub proof fn only_the_last_number_stops_a_session(state: SessionView, event: EventView)
    ensures
        match updates_to_pass(state, event) {
            Some(updates) => offset_has_room(state, event) <==> forall|i: int|
                0 <= i < updates.len() ==> member(#[trigger] updates[i], "update_id"@) != Some(
                    Json::Integer(i64::MAX as int),
                ),
            None => offset_has_room(state, event),
        },
{
    if let Some(updates) = updates_to_pass(state, event) {
        only_the_last_number_leaves_no_room(updates);
    }
}

/// What is known of a question is what its session has.
pub proof fn sessions_are_read_as_they_are(session: Session)
    ensures
        session@.facts == session.facts@,
        session@.phase == session.phase@,
        session.facts@.question == session.facts.question@,
        session.facts@.chat == session.facts.chat@,
        session.facts@.user_id == session.facts.user_id,
        session.facts@.offset == session.facts.offset,
        session.facts@.pid == session.facts.pid,
        session.facts@.request_id == session.facts.request_id@,
        session.facts@.message_id == session.facts.message_id,
{
}

/// What a session waits for is what its phase says.
pub proof fn phases_are_read_as_they_are(phase: Phase)
    ensures
        match phase {
            Phase::Draining { batches } => phase@ == (PhaseView::Draining {
                batches: batches as nat,
            }),
            Phase::Settling { batches, full, next } => phase@ == (PhaseView::Settling {
                batches: batches as nat,
                full,
                next,
            }),
            Phase::PollFailed { error } => phase@ == (PhaseView::PollFailed { error }),
            Phase::Polled { reply } => phase@ == (PhaseView::Polled { reply: json_of(reply) }),
            Phase::StoringOffset { offset, found } => phase@ == (PhaseView::StoringOffset {
                offset,
                found: answer_view(found),
            }),
            Phase::Answering { answer } => phase@ == (PhaseView::Answering { answer: answer@ }),
            Phase::Acknowledging { text } => phase@ == (PhaseView::Acknowledging { text: text@ }),
            Phase::ClosingAnswered { text } => phase@ == (PhaseView::ClosingAnswered {
                text: text@,
            }),
            _ => true,
        },
{
}

/// What came of an action is what its event says.
pub proof fn events_are_read_as_they_are(event: Event)
    ensures
        match event {
            Event::Cancelled(cancelled) => event@ == EventView::Cancelled(cancelled),
            Event::Chat(chat) => event@ == EventView::Chat(chat@),
            Event::Reply(reply) => event@ == EventView::Reply(json_of(reply)),
            Event::Offset(offset) => event@ == EventView::Offset(offset),
            Event::Request { pid, nanos } => event@ == (EventView::Request { pid, nanos }),
            Event::Remaining(span) => event@ == EventView::Remaining(span),
            Event::Done => event@ is Done,
            Event::Failed => event@ is Failed,
        },
{
}

/// What is to be done is what an action says.
pub proof fn actions_are_read_as_they_are(action: Action)
    ensures
        match action {
            Action::CheckCancelled => action@ is CheckCancelled,
            Action::FindChat => action@ is FindChat,
            Action::Call(call) => action@ == ActionView::Call(call@),
            Action::TakeLock => action@ is TakeLock,
            Action::ReadOffset => action@ is ReadOffset,
            Action::Settle { dismissals, offset } => action@ matches ActionView::Settle {
                dismissals: closed,
                offset: next,
            } && next == offset && closed.len() == dismissals@.len() && forall|i: int|
                0 <= i < closed.len() ==> #[trigger] closed[i] == dismissals@[i]@,
            Action::NameRequest => action@ is NameRequest,
            Action::Record { pid, chat, message_id } => action@ == (ActionView::Record {
                pid,
                chat: chat@,
                message_id,
            }),
            Action::StartClock { timeout_secs } => action@ == (ActionView::StartClock {
                timeout_secs,
            }),
            Action::ReadClock => action@ is ReadClock,
            Action::StoreOffset(offset) => action@ == ActionView::StoreOffset(offset),
            Action::Close(call) => action@ == ActionView::Close(call@),
            Action::Finish(outcome) => action@ == ActionView::Finish(outcome@),
        },
{
}

/// How a session ends is what its outcome says.
pub proof fn outcomes_are_read_as_they_are(outcome: Outcome)
    ensures
        match outcome {
            Outcome::Answered(text) => outcome@ == OutcomeView::Answered(text@),
            Outcome::Refused(error) => outcome@ == OutcomeView::Refused(error),
            Outcome::Failed => outcome@ is Failed,
        },
{
}

/// Every step leaves a session that can go on, with the same question.
pub proof fn steps_keep_sessions_sound(state: SessionView, event: EventView)
    requires
        state.wf(),
    ensures
        step(state, event).0.wf(),
        step(state, event).0.facts.question == state.facts.question,
{
    if let PhaseView::Polled { reply } = state.phase {
        if let Some(updates) = as_list(reply) {
            lemma_first_answer_can_answer(state.facts, updates);
        }
    }
}

proof fn lemma_first_answer_can_answer(facts: FactsView, updates: Seq<Json>)
    ensures
        first_answer_view(updates, facts.user_id, facts.request_id, facts.question.choices) matches Some(
            answer,
        ) ==> can_answer(facts.question, answer),
    decreases updates.len(),
{
    if updates.len() > 0 {
        answers_are_choices_or_words(
            updates.first(),
            facts.user_id,
            facts.request_id,
            facts.question.choices,
        );
        lemma_first_answer_can_answer(facts, updates.drop_first());
    }
}

fn finish_with(facts: Facts, outcome: Outcome) -> (next: (Session, Action))
    ensures
        (next.0@, next.1@) == finish(facts@, outcome@),
{
    (Session { facts, phase: Phase::Finished }, Action::Finish(outcome))
}

fn withdraw_question(facts: Facts) -> (next: (Session, Action))
    ensures
        (next.0@, next.1@) == withdraw(facts@),
{
    let call: Call = cancel_question(
        facts.chat.as_str(),
        facts.message_id,
        facts.question.text.as_str(),
        facts.question.title(),
    );
    (Session { facts, phase: Phase::ClosingCancelled }, Action::Close(call))
}

fn expire_now(facts: Facts) -> (next: (Session, Action))
    ensures
        (next.0@, next.1@) == expire(facts@),
{
    let wait: String = wait_label(facts.question.timeout_secs);
    let call: Call = expire_question(
        facts.chat.as_str(),
        facts.message_id,
        facts.question.text.as_str(),
        facts.question.title(),
        wait.as_str(),
    );
    (Session { facts, phase: Phase::ClosingExpired }, Action::Close(call))
}

fn close_answered(facts: Facts, text: String) -> (next: (Session, Action))
    ensures
        (next.0@, next.1@) == show_answer(facts@, text@),
{
    let call: Call = mark_answered(
        facts.chat.as_str(),
        facts.message_id,
        facts.question.text.as_str(),
        facts.question.title(),
        text.as_str(),
    );
    (Session { facts, phase: Phase::ClosingAnswered { text } }, Action::Close(call))
}

fn acknowledge_answer(facts: Facts, answer: IncomingAnswer) -> (next: (Session, Action))
    ensures
        (next.0@, next.1@) == acknowledge(facts@, answer@),
{
    match answer {
        IncomingAnswer::Choice { text, callback_query_id } => {
            let call: Call = answer_callback(
                callback_query_id.as_str(),
                "🟢 Answer received.",
                None,
            );
            (Session { facts, phase: Phase::Acknowledging { text } }, Action::Call(call))
        },
        IncomingAnswer::Text(text) => close_answered(facts, text),
    }
}

fn heed_answer(facts: Facts, answer: Option<IncomingAnswer>) -> (next: (Session, Action))
    ensures
        (next.0@, next.1@) == heed(facts@, answer_view(answer)),
{
    let phase: Phase = match answer {
        Some(answer) => Phase::Answering { answer },
        None => Phase::Waking,
    };
    (Session { facts, phase }, Action::CheckCancelled)
}

fn dismiss_all(updates: &[Value], user_id: i64) -> (dismissals: Vec<Dismissal>)
    ensures
        each_dismissal(dismissals@) == dismissals_view(jsons_of(updates@), user_id),
{
    let mut dismissals: Vec<Dismissal> = Vec::new();
    let mut i: usize = 0;
    assert(each_dismissal(dismissals@) =~= dismissals_view(
        jsons_of(updates@.take(0)),
        user_id,
    ));
    while i < updates.len()
        invariant
            i <= updates.len(),
            each_dismissal(dismissals@) == dismissals_view(
                jsons_of(updates@.take(i as int)),
                user_id,
            ),
        decreases updates.len() - i,
    {
        proof {
            lemma_jsons_of_one_more(updates@, i as int);
        }
        let ghost before = dismissals@;
        if let Some(dismissal) = dismiss_stale_callback(&updates[i], user_id) {
            dismissals.push(dismissal);
            assert(each_dismissal(dismissals@) =~= each_dismissal(before).push(dismissal@));
        }
        i = i + 1;
    }
    assert(updates@.take(i as int) =~= updates@);
    dismissals
}

fn drain_batch(facts: Facts, batches: usize, updates: &[Value]) -> (next: (Session, Action))
    requires
        offset_fits(jsons_of(updates@)),
    ensures
        (next.0@, next.1@) == drain(facts@, batches as nat, jsons_of(updates@)),
{
    if updates.len() == 0 {
        return (Session { facts, phase: Phase::Ready }, Action::CheckCancelled);
    }
    let offset: Option<i64> = next_offset(updates);
    let dismissals: Vec<Dismissal> = dismiss_all(updates, facts.user_id);
    let full: bool = updates.len() as u64 >= UPDATE_LIMIT;
    (
        Session { facts, phase: Phase::Settling { batches, full, next: offset } },
        Action::Settle { dismissals, offset },
    )
}

fn after_batch(facts: Facts, batches: usize, full: bool, next: Option<i64>) -> (after: (
    Session,
    Action,
))
    requires
        batches < MAX_PENDING_BATCHES,
    ensures
        (after.0@, after.1@) == drained(facts@, batches as nat, full, next),
{
    let mut facts: Facts = facts;
    if let Some(next) = next {
        facts.offset = Some(next);
    }
    if !full {
        return (Session { facts, phase: Phase::Ready }, Action::CheckCancelled);
    }
    if batches + 1 < MAX_PENDING_BATCHES {
        let call: Call = get_updates(facts.offset, 0);
        return (
            Session { facts, phase: Phase::Draining { batches: batches + 1 } },
            Action::Call(call),
        );
    }
    finish_with(facts, Outcome::Refused(AskError::TooManyUpdates))
}

fn poll(facts: Facts, remaining: Span) -> (next: (Session, Action))
    ensures
        (next.0@, next.1@) == go(
            facts@,
            PhaseView::Polling,
            ActionView::Call(get_updates_view(facts@.offset, poll_secs(remaining))),
        ),
{
    let secs: u64 = if remaining.secs < 1 {
        1
    } else if remaining.secs > POLL_TIMEOUT_SECS {
        POLL_TIMEOUT_SECS
    } else {
        remaining.secs
    };
    let call: Call = get_updates(facts.offset, secs);
    (Session { facts, phase: Phase::Polling }, Action::Call(call))
}

fn keep_poll(facts: Facts, reply: Value) -> (next: (Session, Action))
    ensures
        (next.0@, next.1@) == polled(facts@, json_of(reply)),
{
    let refusal: Option<AskError> = match read_updates(&reply) {
        Ok(_) => None,
        Err(error) => Some(error),
    };
    let phase: Phase = match refusal {
        None => Phase::Polled { reply },
        Some(error) => Phase::PollFailed { error: Some(error) },
    };
    (Session { facts, phase }, Action::CheckCancelled)
}

fn read_poll(facts: Facts, reply: Value) -> (next: (Session, Action))
    requires
        has_room_after(json_of(reply)),
    ensures
        (next.0@, next.1@) == read_updates_of(facts@, json_of(reply)),
{
    match read_updates(&reply) {
        Ok(updates) => {
            let found: Option<IncomingAnswer> = first_answer(
                updates.as_slice(),
                facts.user_id,
                facts.request_id.as_str(),
                facts.question.choices.as_slice(),
            );
            match next_offset(updates.as_slice()) {
                Some(offset) => (
                    Session { facts, phase: Phase::StoringOffset { offset, found } },
                    Action::StoreOffset(offset),
                ),
                None => heed_answer(facts, found),
            }
        },
        Err(error) => finish_with(facts, Outcome::Refused(error)),
    }
}

fn reply_has_room(reply: &Value) -> (has: bool)
    ensures
        has == has_room_after(json_of(*reply)),
{
    match read_updates(reply) {
        Ok(updates) => has_next_offset(updates.as_slice()),
        Err(_) => true,
    }
}

impl Session {
    /// Whether the session can go on: its question may be asked, it has not read more old
    /// updates than it may, what it takes for updates is a list, and what it takes for an
    /// answer is one.
    pub open spec fn wf(self) -> bool {
        self@.wf()
    }

    /// Starts to ask a question.
    pub fn start(question: Question) -> (first: (Session, Action))
        requires
            question@.wf(),
        ensures
            first.0@ == started(question@),
            first.1@ == ActionView::CheckCancelled,
            first.0.wf(),
    {
        let facts: Facts = Facts {
            question,
            chat: String::new(),
            user_id: 0,
            offset: None,
            pid: 0,
            request_id: String::new(),
            message_id: 0,
        };
        (Session { facts, phase: Phase::Starting }, Action::CheckCancelled)
    }

    /// Takes what came of the last action, and says what is next. What is not an answer to
    /// that action counts as a failure.
    pub fn advance(self, event: Event) -> (next: (Session, Action))
        requires
            self.wf(),
            offset_has_room(self@, event@),
        ensures
            (next.0@, next.1@) == step(self@, event@),
            next.0.wf(),
    {
        proof {
            steps_keep_sessions_sound(self@, event@);
        }
        let mut facts: Facts = self.facts;
        match (self.phase, event) {
            (Phase::Starting, Event::Cancelled(cancelled)) => {
                if cancelled {
                    return finish_with(facts, Outcome::Refused(AskError::CancelledBeforeSend));
                }
                (Session { facts, phase: Phase::FindingChat }, Action::FindChat)
            },
            (Phase::FindingChat, Event::Chat(chat)) => {
                let call: Call = get_chat(chat.as_str());
                facts.chat = chat;
                (Session { facts, phase: Phase::CheckingChat }, Action::Call(call))
            },
            (Phase::CheckingChat, Event::Reply(details)) => match ensure_private_chat(&details) {
                Ok(user_id) => {
                    facts.user_id = user_id;
                    (Session { facts, phase: Phase::Locking }, Action::TakeLock)
                },
                Err(error) => finish_with(facts, Outcome::Refused(error)),
            },
            (Phase::Locking, Event::Done) => {
                (Session { facts, phase: Phase::ReadingOffset }, Action::ReadOffset)
            },
            (Phase::ReadingOffset, Event::Offset(offset)) => {
                facts.offset = offset;
                let call: Call = get_updates(offset, 0);
                (Session { facts, phase: Phase::Draining { batches: 0 } }, Action::Call(call))
            },
            (Phase::Draining { batches }, Event::Reply(reply)) => match read_updates(&reply) {
                Ok(updates) => drain_batch(facts, batches, updates.as_slice()),
                Err(error) => finish_with(facts, Outcome::Refused(error)),
            },
            (Phase::Settling { batches, full, next }, Event::Done) => after_batch(
                facts,
                batches,
                full,
                next,
            ),
            (Phase::Ready, Event::Cancelled(cancelled)) => {
                if cancelled {
                    return finish_with(facts, Outcome::Refused(AskError::CancelledBeforeSend));
                }
                (Session { facts, phase: Phase::Naming }, Action::NameRequest)
            },
            (Phase::Naming, Event::Request { pid, nanos }) => {
                facts.pid = pid;
                facts.request_id = request_id(pid, nanos);
                let call: Call = send_question(
                    facts.chat.as_str(),
                    facts.question.text.as_str(),
                    facts.question.title(),
                    facts.request_id.as_str(),
                    &facts.question.choices,
                );
                (Session { facts, phase: Phase::Sending }, Action::Call(call))
            },
            (Phase::Sending, Event::Reply(sent)) => match read_message_id(&sent) {
                Ok(message_id) => {
                    facts.message_id = message_id;
                    let action: Action = Action::Record {
                        pid: facts.pid,
                        chat: facts.chat.clone(),
                        message_id,
                    };
                    (Session { facts, phase: Phase::Recording }, action)
                },
                Err(error) => finish_with(facts, Outcome::Refused(error)),
            },
            (Phase::Recording, Event::Done) => {
                let timeout_secs: u64 = facts.question.timeout_secs;
                (
                    Session { facts, phase: Phase::StartingClock },
                    Action::StartClock { timeout_secs },
                )
            },
            (Phase::StartingClock, Event::Done) => {
                (Session { facts, phase: Phase::Waking }, Action::CheckCancelled)
            },
            (Phase::Waking, Event::Cancelled(cancelled)) => {
                if cancelled {
                    return withdraw_question(facts);
                }
                (Session { facts, phase: Phase::ReadingClock }, Action::ReadClock)
            },
            (Phase::ReadingClock, Event::Remaining(remaining)) => {
                if remaining.secs == 0 && remaining.nanos == 0 {
                    return expire_now(facts);
                }
                poll(facts, remaining)
            },
            (Phase::Polling, Event::Reply(reply)) => keep_poll(facts, reply),
            (Phase::Polling, Event::Failed) => {
                (
                    Session { facts, phase: Phase::PollFailed { error: None } },
                    Action::CheckCancelled,
                )
            },
            (Phase::PollFailed { error }, Event::Cancelled(cancelled)) => {
                if cancelled {
                    return withdraw_question(facts);
                }
                match error {
                    Some(error) => finish_with(facts, Outcome::Refused(error)),
                    None => finish_with(facts, Outcome::Failed),
                }
            },
            (Phase::Polled { reply }, Event::Cancelled(cancelled)) => {
                if cancelled {
                    return withdraw_question(facts);
                }
                read_poll(facts, reply)
            },
            (Phase::StoringOffset { offset, found }, Event::Done) => {
                facts.offset = Some(offset);
                heed_answer(facts, found)
            },
            (Phase::Answering { answer }, Event::Cancelled(cancelled)) => {
                if cancelled {
                    return withdraw_question(facts);
                }
                acknowledge_answer(facts, answer)
            },
            (Phase::Acknowledging { text }, Event::Reply(_)) => close_answered(facts, text),
            (Phase::Acknowledging { text }, Event::Failed) => close_answered(facts, text),
            (Phase::ClosingAnswered { text }, Event::Done) => finish_with(
                facts,
                Outcome::Answered(text),
            ),
            (Phase::ClosingAnswered { text }, Event::Failed) => finish_with(
                facts,
                Outcome::Answered(text),
            ),
            (Phase::ClosingExpired, Event::Done) => {
                let timeout_secs: u64 = facts.question.timeout_secs;
                finish_with(
                    facts,
                    Outcome::Refused(AskError::Expired { timeout_secs, closed: true }),
                )
            },
            (Phase::ClosingExpired, Event::Failed) => {
                let timeout_secs: u64 = facts.question.timeout_secs;
                finish_with(
                    facts,
                    Outcome::Refused(AskError::Expired { timeout_secs, closed: false }),
                )
            },
            (Phase::ClosingCancelled, Event::Done) => finish_with(
                facts,
                Outcome::Refused(AskError::Cancelled { closed: true }),
            ),
            (Phase::ClosingCancelled, Event::Failed) => finish_with(
                facts,
                Outcome::Refused(AskError::Cancelled { closed: false }),
            ),
            _ => finish_with(facts, Outcome::Failed),
        }
    }

    /// Takes what came of the last action, and says what is next, unless that takes an offset
    /// and Telegram numbered its updates so high that no number is left after them.
    pub fn try_advance(self, event: Event) -> (next: Option<(Session, Action)>)
        requires
            self.wf(),
        ensures
            match next {
                Some(next) => offset_has_room(self@, event@) && (next.0@, next.1@) == step(
                    self@,
                    event@,
                ) && next.0.wf(),
                None => !offset_has_room(self@, event@),
            },
    {
        let has_room: bool = match (&self.phase, &event) {
            (Phase::Draining { .. }, Event::Reply(reply)) => reply_has_room(reply),
            (Phase::Polled { reply }, Event::Cancelled(cancelled)) => *cancelled || reply_has_room(
                reply,
            ),
            _ => true,
        };
        if has_room {
            Some(self.advance(event))
        } else {
            None
        }
    }
}

} // verus!
