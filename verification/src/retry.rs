//! Trying again to close a message that Telegram did not let go of.

use crate::text::{contains, occurs_in, optional_view};
use vstd::prelude::*;

verus! {

/// How often a message is edited at most.
pub const QUESTION_EDIT_ATTEMPTS: usize = 3;

/// The pause after the first failure; it grows by as much with each further one.
pub const QUESTION_EDIT_RETRY_DELAY_MILLIS: u64 = 300;

/// What to do after an attempt to edit a message.
#[derive(Clone, Copy, Debug, PartialEq, Eq, Structural)]
pub enum EditStep {
    /// The message is as it should be.
    Done,
    /// Try again after so many milliseconds.
    RetryAfter(u64),
    /// Report the failure.
    GiveUp,
}

/// Whether an attempt leaves the message as it should be: it did not fail, or it failed
/// because the message was so already.
pub open spec fn settles(failure: Option<Seq<char>>) -> bool {
    match failure {
        Some(failure) => occurs_in("message is not modified"@, failure),
        None => true,
    }
}

/// What to do after the attempt with this number, counted from zero.
pub open spec fn edit_step(attempt: nat, failure: Option<Seq<char>>) -> EditStep {
    if settles(failure) {
        EditStep::Done
    } else if attempt + 1 < QUESTION_EDIT_ATTEMPTS {
        EditStep::RetryAfter((QUESTION_EDIT_RETRY_DELAY_MILLIS * (attempt + 1)) as u64)
    } else {
        EditStep::GiveUp
    }
}

/// How attempts go from the one with this number on, if they fail as `failures` says: how
/// many more are made, how many milliseconds are waited in all, and whether the message ends
/// as it should be.
pub open spec fn edit_run(attempt: nat, failures: spec_fn(nat) -> Option<Seq<char>>) -> (
    nat,
    nat,
    bool,
)
    decreases QUESTION_EDIT_ATTEMPTS - attempt,
{
    match edit_step(attempt, failures(attempt)) {
        EditStep::Done => (1, 0, true),
        EditStep::GiveUp => (1, 0, false),
        EditStep::RetryAfter(millis) => {
            let (more, waited, done) = edit_run(attempt + 1, failures);
            (more + 1, waited + millis as nat, done)
        },
    }
}

/// A message ends as it should be exactly if one of three attempts leaves it so; there are
/// never more than three, and the pauses between them take less than a second in all.
pub proof fn edits_are_retried(failures: spec_fn(nat) -> Option<Seq<char>>)
    ensures
        edit_run(0, failures).2 <==> (settles(failures(0)) || settles(failures(1)) || settles(
            failures(2),
        )),
        1 <= edit_run(0, failures).0 <= 3,
        edit_run(0, failures).0 == 1 <==> settles(failures(0)),
        edit_run(0, failures).0 == 3 <==> !settles(failures(0)) && !settles(failures(1)),
        edit_run(0, failures).1 == (if settles(failures(0)) {
            0nat
        } else if settles(failures(1)) {
            300
        } else {
            900
        }),
{
    reveal_with_fuel(edit_run, 4);
}

/// An attempt is the last one needed only if the call succeeded or Telegram said that the
/// message is not modified. After any other failure, whatever it says, the first two attempts
/// are followed by another one, after 300 and 600 milliseconds, and the third is reported.
pub proof fn only_a_message_that_is_as_it_should_be_is_let_go(
    attempt: nat,
    failure: Option<Seq<char>>,
)
    requires
        attempt < 3,
    ensures
        ({
            let settled = match failure {
                Some(failure) => occurs_in("message is not modified"@, failure),
                None => true,
            };
            &&& edit_step(attempt, failure) == EditStep::Done <==> settled
            &&& !settled && attempt == 0 ==> edit_step(attempt, failure) == EditStep::RetryAfter(
                300,
            )
            &&& !settled && attempt == 1 ==> edit_step(attempt, failure) == EditStep::RetryAfter(
                600,
            )
            &&& !settled && attempt == 2 ==> edit_step(attempt, failure) == EditStep::GiveUp
        }),
{
}

/// What to do after the attempt with number `attempt`, counted from zero, to edit a message,
/// if it failed with `failure` or did not fail.
pub fn call_question_edit_with_retry(attempt: usize, failure: Option<&str>) -> (step: EditStep)
    requires
        attempt < QUESTION_EDIT_ATTEMPTS,
    ensures
        step == edit_step(attempt as nat, optional_view(failure)),
{
    if let Some(failure) = failure {
        if !contains(failure, "message is not modified") {
            if attempt + 1 < QUESTION_EDIT_ATTEMPTS {
                return EditStep::RetryAfter(
                    QUESTION_EDIT_RETRY_DELAY_MILLIS * (attempt as u64 + 1),
                );
            }
            return EditStep::GiveUp;
        }
    }
    EditStep::Done
}

} // verus!
