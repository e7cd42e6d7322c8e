//! Why a question was not answered.

use crate::message::{wait_label, wait_view};
use vstd::prelude::*;

verus! {

/// Why a question was not asked, or was asked and not answered.
#[derive(Clone, Copy, Debug, PartialEq, Eq, Structural)]
pub enum AskError {
    /// The question is empty.
    EmptyQuestion,
    /// The question is too long.
    LongQuestion,
    /// There are too few or too many choices.
    ChoiceCount,
    /// The time to wait is too short or too long.
    Timeout,
    /// A choice is empty or too long.
    ChoiceLength,
    /// The caller stopped waiting before the question was sent.
    CancelledBeforeSend,
    /// The chat is shared with others.
    NotPrivate,
    /// Telegram did not say which chat it is.
    MissingChatId,
    /// Another question holds the lock.
    Busy,
    /// Telegram answered a request for updates with something else.
    UpdatesNotArray,
    /// Old updates kept coming.
    TooManyUpdates,
    /// Telegram did not say which message the question is.
    MissingMessageId,
    /// Nobody answered for `timeout_secs`. `closed` says whether the message shows it.
    Expired { timeout_secs: u64, closed: bool },
    /// The caller stopped waiting. `closed` says whether the message shows it.
    Cancelled { closed: bool },
}

impl AskError {
    /// What the caller is told.
    pub open spec fn message_view(self) -> Seq<char> {
        match self {
            AskError::EmptyQuestion => "question must not be empty"@,
            AskError::LongQuestion => "question must be at most 3000 characters"@,
            AskError::ChoiceCount => "choices must contain between 2 and 8 items"@,
            AskError::Timeout => "timeout_seconds must be between 30 and 7200"@,
            AskError::ChoiceLength => "each choice must contain between 1 and 64 characters"@,
            AskError::CancelledBeforeSend => "Telegram question was cancelled before it was sent"@,
            AskError::NotPrivate => "interactive questions require a private Telegram chat"@,
            AskError::MissingChatId => "getChat response is missing a numeric id"@,
            AskError::Busy => "another Telegram question is already waiting for an answer"@,
            AskError::UpdatesNotArray => "getUpdates response is not an array"@,
            AskError::TooManyUpdates =>
                "too many pending Telegram updates; send the question again"@,
            AskError::MissingMessageId => "sendMessage response is missing message_id"@,
            AskError::Expired { timeout_secs, closed } => "Telegram question expired after "@
                + wait_view(timeout_secs as nat) + (if closed {
                "; the buttons were removed. Do not assume an answer or continue work that depends on one"@
            } else {
                ", but its Telegram message could not be updated. The request is inactive; do not assume an answer or continue work that depends on one"@
            }),
            AskError::Cancelled { closed } => if closed {
                "Telegram question was cancelled because Codex stopped waiting; the buttons were removed"@
            } else {
                "Telegram question was cancelled because Codex stopped waiting, but its Telegram message could not be updated. The request is inactive"@
            },
        }
    }

    /// What the caller is told.
    pub fn message(&self) -> (text: String)
        ensures
            text@ == self.message_view(),
    {
        match self {
            AskError::EmptyQuestion => "question must not be empty".to_owned(),
            AskError::LongQuestion => "question must be at most 3000 characters".to_owned(),
            AskError::ChoiceCount => "choices must contain between 2 and 8 items".to_owned(),
            AskError::Timeout => "timeout_seconds must be between 30 and 7200".to_owned(),
            AskError::ChoiceLength =>
                "each choice must contain between 1 and 64 characters".to_owned(),
            AskError::CancelledBeforeSend =>
                "Telegram question was cancelled before it was sent".to_owned(),
            AskError::NotPrivate =>
                "interactive questions require a private Telegram chat".to_owned(),
            AskError::MissingChatId => "getChat response is missing a numeric id".to_owned(),
            AskError::Busy =>
                "another Telegram question is already waiting for an answer".to_owned(),
            AskError::UpdatesNotArray => "getUpdates response is not an array".to_owned(),
            AskError::TooManyUpdates =>
                "too many pending Telegram updates; send the question again".to_owned(),
            AskError::MissingMessageId => "sendMessage response is missing message_id".to_owned(),
            AskError::Expired { timeout_secs, closed } => {
                let mut text: String = "Telegram question expired after ".to_owned();
                text.append(wait_label(*timeout_secs).as_str());
                if *closed {
                    text.append(
                        "; the buttons were removed. Do not assume an answer or continue work that depends on one",
                    );
                } else {
                    text.append(
                        ", but its Telegram message could not be updated. The request is inactive; do not assume an answer or continue work that depends on one",
                    );
                }
                text
            },
            AskError::Cancelled { closed } => if *closed {
                "Telegram question was cancelled because Codex stopped waiting; the buttons were removed".to_owned()
            } else {
                "Telegram question was cancelled because Codex stopped waiting, but its Telegram message could not be updated. The request is inactive".to_owned()
            },
        }
    }
}

/// The caller of a question that expired is told how long was waited, and whether the buttons
/// were removed.
pub proof fn an_expiry_says_how_long_was_waited(timeout_secs: u64, closed: bool)
    ensures
        ({
            let message = (AskError::Expired { timeout_secs, closed }).message_view();
            let start = "Telegram question expired after "@ + wait_view(timeout_secs as nat);
            &&& start.is_prefix_of(message)
            &&& closed ==> message.skip(start.len() as int)
                == "; the buttons were removed. Do not assume an answer or continue work that depends on one"@
            &&& !closed ==> message.skip(start.len() as int)
                == ", but its Telegram message could not be updated. The request is inactive; do not assume an answer or continue work that depends on one"@
        }),
{
    let message = (AskError::Expired { timeout_secs, closed }).message_view();
    let start = "Telegram question expired after "@ + wait_view(timeout_secs as nat);
    assert(start =~= message.subrange(0, start.len() as int));
    if closed {
        assert(message.skip(start.len() as int)
            =~= "; the buttons were removed. Do not assume an answer or continue work that depends on one"@);
    } else {
        assert(message.skip(start.len() as int)
            =~= ", but its Telegram message could not be updated. The request is inactive; do not assume an answer or continue work that depends on one"@);
    }
}

} // verus!
