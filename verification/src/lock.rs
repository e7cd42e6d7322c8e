//! The lock file that lets one question wait at a time, and that says where the question is
//! that an asker left behind.

use crate::call::{edit_question, edit_question_view, Call, CallView};
use crate::json::{
    as_signed, as_text, as_unsigned, get, json_of, member, parse_json, parsed_json, signed_value,
    text_value, unsigned_value, write_json, written_json, Fields, Json,
};
use crate::message::{abandoned_text, abandoned_view};
use crate::question::MAX_TIMEOUT_SECS;
use crate::text::{
    decimal, decimal_reads_back, decimal_text, lemma_decimal_is_digits, lemma_trimmed_after,
    lemma_trimmed_end_keeps_first, optional_view, parse_unsigned, parsed_unsigned, trim, trimmed,
    trimmed_end, without_plus,
};
use crate::update::optional_call_view;
use serde_json::Value;
use vstd::prelude::*;

verus! {

/// How much longer than the longest wait a lock is taken to be held.
pub const LOCK_GRACE_SECS: u64 = 300;

/// A stretch of time: whole seconds, and nanoseconds on top.
#[derive(Clone, Copy, Debug, PartialEq, Eq, Structural)]
pub struct Span {
    pub secs: u64,
    pub nanos: u32,
}

/// What a lock file holds while its owner has not sent a question.
pub open spec fn claim_view(pid: u32) -> Seq<char> {
    decimal(pid as nat) + "\n"@
}

/// What a lock file records of its owner's question.
pub open spec fn record_view(pid: u32, chat: Seq<char>, message_id: i64) -> Json {
    Json::Object(
        map![
            "pid"@ => Json::Integer(pid as int),
            "chat_id"@ => Json::Text(chat),
            "message_id"@ => Json::Integer(message_id as int),
        ],
    )
}

/// Whether a lock file with these contents records the question of its owner.
pub open spec fn records(contents: Seq<char>, pid: u32, chat: Seq<char>, message_id: i64) -> bool {
    &&& parsed_json(contents) == Some(record_view(pid, chat, message_id))
    &&& contents.len() > 0
    &&& contents.first() == '{'
}

/// The owner that a record names.
pub open spec fn recorded_pid_view(record: Json) -> Option<u32> {
    match member(record, "pid"@) {
        Some(pid) => match as_unsigned(pid) {
            Some(pid) => if pid <= u32::MAX {
                Some(pid as u32)
            } else {
                None
            },
            None => None,
        },
        None => None,
    }
}

/// The chat and the message that a record names.
pub open spec fn recorded_target_view(record: Json) -> Option<(Seq<char>, i64)> {
    match (member(record, "chat_id"@), member(record, "message_id"@)) {
        (Some(chat), Some(message_id)) => match (as_text(chat), as_signed(message_id)) {
            (Some(chat), Some(message_id)) => Some((chat, message_id)),
            _ => None,
        },
        _ => None,
    }
}

/// The owner that a lock file names: a number by itself, or a record.
pub open spec fn lock_owner_view(contents: Seq<char>) -> Option<u32> {
    match parsed_unsigned(trimmed(contents), u32::MAX as nat) {
        Some(pid) => Some(pid as u32),
        None => match parsed_json(contents) {
            Some(record) => recorded_pid_view(record),
            None => None,
        },
    }
}

/// The chat and the message that a lock file names.
pub open spec fn abandoned_target_view(contents: Seq<char>) -> Option<(Seq<char>, i64)> {
    match parsed_json(contents) {
        Some(record) => recorded_target_view(record),
        None => None,
    }
}

/// The call that closes the question that a lock file names, if it names one.
pub open spec fn abandoned_call_view(contents: Option<Seq<char>>) -> Option<CallView> {
    match contents {
        Some(contents) => match abandoned_target_view(contents) {
            Some((chat, message_id)) => Some(
                edit_question_view(chat, message_id, abandoned_view()),
            ),
            None => None,
        },
        None => None,
    }
}

/// Whether a lock was left behind: its owner is gone, or it is older than any wait.
pub open spec fn stale(owner_alive: Option<bool>, age: Option<Span>) -> bool {
    ||| owner_alive == Some(false)
    ||| match age {
        Some(age) => age.secs > MAX_TIMEOUT_SECS + LOCK_GRACE_SECS || (age.secs
            == MAX_TIMEOUT_SECS + LOCK_GRACE_SECS && age.nanos > 0),
        None => false,
    }
}

/// What came of a step of taking the lock.
#[derive(Clone, Copy, Debug, PartialEq, Eq, Structural)]
pub enum LockEvent {
    /// The lock file was made.
    Created,
    /// There was a lock file.
    Exists,
    /// The lock file that was there was left behind, or was not.
    Judged { stale: bool },
    /// The lock file could not be made for another reason.
    Failed,
}

/// The next step of taking the lock.
#[derive(Clone, Copy, Debug, PartialEq, Eq, Structural)]
pub enum LockStep {
    /// The lock is taken.
    Held,
    /// Find out whether the lock file that is there was left behind.
    Judge,
    /// Close the question of the lock file that is there, remove it and try once more.
    Clear,
    /// Another question waits.
    Busy,
    /// Report why the lock file could not be made.
    Fail,
}

/// The next step of taking the lock, at the attempt with this number, counted from zero.
pub open spec fn lock_step(attempt: nat, event: LockEvent) -> LockStep {
    match event {
        LockEvent::Created => LockStep::Held,
        LockEvent::Exists => if attempt == 0 {
            LockStep::Judge
        } else {
            LockStep::Busy
        },
        LockEvent::Judged { stale } => if attempt == 0 && stale {
            LockStep::Clear
        } else {
            LockStep::Busy
        },
        LockEvent::Failed => LockStep::Fail,
    }
}

/// One question waits at a time: the lock is held only by whoever made its file, a file that
/// is there is judged and removed at the first attempt only, and removed only if it was left
/// behind.
pub proof fn one_question_waits_at_a_time(attempt: nat, event: LockEvent)
    ensures
        lock_step(attempt, event) == LockStep::Held <==> event == LockEvent::Created,
        lock_step(attempt, event) == LockStep::Judge ==> attempt == 0,
        lock_step(attempt, event) == LockStep::Clear ==> attempt == 0 && event
            == (LockEvent::Judged { stale: true }),
{
}

/// What each event leads to: a file that was made is the lock, one that is there is judged at
/// the first attempt, removed if it was left behind, and else is another question's; any other
/// failure is reported.
pub proof fn each_lock_event_leads_on(attempt: nat, event: LockEvent)
    ensures
        match event {
            LockEvent::Created => lock_step(attempt, event) == LockStep::Held,
            LockEvent::Exists => lock_step(attempt, event) == LockStep::Judge <==> attempt == 0,
            LockEvent::Judged { stale } => lock_step(attempt, event) == LockStep::Clear <==> stale
                && attempt == 0,
            LockEvent::Failed => lock_step(attempt, event) == LockStep::Fail,
        },
        lock_step(attempt, event) == LockStep::Busy <==> (event == LockEvent::Exists && attempt
            > 0) || (event matches LockEvent::Judged { stale } && (!stale || attempt > 0)),
{
}

/// The attempt at which the lock is being taken after the first `n` events: each file that was
/// left behind and removed makes room for one more.
pub open spec fn attempt_after(events: spec_fn(nat) -> LockEvent, n: nat) -> nat
    decreases n,
{
    if n == 0 {
        0
    } else {
        let attempt = attempt_after(events, (n - 1) as nat);
        if lock_step(attempt, events((n - 1) as nat)) == LockStep::Clear {
            attempt + 1
        } else {
            attempt
        }
    }
}

/// Whoever takes the lock removes at most one file, and judges none after that.
pub proof fn a_lock_is_cleared_at_most_once(
    events: spec_fn(nat) -> LockEvent,
    i: nat,
    j: nat,
)
    requires
        i < j,
        lock_step(attempt_after(events, i), events(i)) == LockStep::Clear,
    ensures
        attempt_after(events, j) == 1,
        lock_step(attempt_after(events, j), events(j)) != LockStep::Clear,
        lock_step(attempt_after(events, j), events(j)) != LockStep::Judge,
    decreases j,
{
    if j > i + 1 {
        a_lock_is_cleared_at_most_once(events, i, (j - 1) as nat);
    }
}

/// A lock whose owner is not known to be gone is not taken away before the longest wait and
/// the time on top of it are over.
pub proof fn locks_of_waiting_questions_are_kept(owner_alive: Option<bool>, age: Option<Span>)
    requires
        owner_alive != Some(false),
        age matches Some(age) ==> age.secs < 7500 || (age.secs == 7500 && age.nanos == 0),
    ensures
        !stale(owner_alive, age),
{
}

/// A lock is taken to be left behind exactly if its owner is known to be gone, or the file is
/// known to be older than 7500 seconds.
pub proof fn locks_are_left_behind_by_dead_owners_or_for_long(
    owner_alive: Option<bool>,
    age: Option<Span>,
)
    ensures
        stale(owner_alive, age) <==> owner_alive == Some(false) || (age matches Some(age) && (
        age.secs >= 7501 || (age.secs == 7500 && age.nanos >= 1))),
{
}

/// The file of a lock that was just taken is the number of its owner in decimal, in one line.
pub proof fn a_claim_is_one_line(pid: u32)
    ensures
        claim_view(pid) == decimal(pid as nat).push('\n'),
{
    reveal_strlit("\n");
    assert(claim_view(pid) =~= decimal(pid as nat).push('\n'));
}

/// A record says who asks, in which chat, and which message the question is, and nothing else.
pub proof fn a_record_says_who_asks_and_where(pid: u32, chat: Seq<char>, message_id: i64)
    ensures
        ({
            let record = record_view(pid, chat, message_id);
            &&& member(record, "pid"@) == Some(Json::Integer(pid as int))
            &&& member(record, "chat_id"@) == Some(Json::Text(chat))
            &&& member(record, "message_id"@) == Some(Json::Integer(message_id as int))
            &&& forall|key: Seq<char>| #[trigger]
                member(record, key) is Some ==> key == "pid"@ || key == "chat_id"@ || key
                    == "message_id"@
        }),
{
    lemma_record_names_differ();
}

/// A record names an owner exactly if the number of a process stands under its name, and a
/// question exactly if a text and a whole number stand under theirs.
pub proof fn records_are_read_by_name(
    record: Json,
    pid: u32,
    chat: Seq<char>,
    message_id: i64,
)
    ensures
        recorded_pid_view(record) == Some(pid) <==> member(record, "pid"@) == Some(
            Json::Integer(pid as int),
        ),
        recorded_target_view(record) == Some((chat, message_id)) <==> member(record, "chat_id"@)
            == Some(Json::Text(chat)) && member(record, "message_id"@) == Some(
            Json::Integer(message_id as int),
        ),
{
}

/// A lock file names its owner as a number by itself, with nothing but white space around it, or
/// else in a record. It names a question only in a record.
pub proof fn lock_files_name_owner_and_question(
    contents: Seq<char>,
    pid: u32,
    chat: Seq<char>,
    message_id: i64,
)
    ensures
        ({
            let number = parsed_unsigned(trimmed(contents), 4294967295);
            let record = parsed_json(contents);
            &&& lock_owner_view(contents) == Some(pid) <==> number == Some(pid as nat) || (number
                is None && record is Some && member(record->0, "pid"@) == Some(
                Json::Integer(pid as int),
            ))
            &&& abandoned_target_view(contents) == Some((chat, message_id)) <==> record is Some
                && member(record->0, "chat_id"@) == Some(Json::Text(chat)) && member(
                record->0,
                "message_id"@,
            ) == Some(Json::Integer(message_id as int))
        }),
{
}

/// The question that an asker left behind is closed exactly if its lock file can be read and
/// names it: its message shows that nothing was approved, and has no buttons.
pub proof fn abandoned_questions_are_closed(contents: Option<Seq<char>>)
    ensures
        match contents {
            Some(text) => match abandoned_target_view(text) {
                Some(target) => abandoned_call_view(contents) == Some(
                    edit_question_view(target.0, target.1, abandoned_view()),
                ),
                None => abandoned_call_view(contents) is None,
            },
            None => abandoned_call_view(contents) is None,
        },
{
}

/// A lock file that was just made names its owner.
pub proof fn claim_names_its_owner(pid: u32)
    ensures
        lock_owner_view(claim_view(pid)) == Some(pid),
{
    let digits = decimal(pid as nat);
    lemma_decimal_is_digits(pid as nat);
    reveal_strlit("\n");
    assert('0' <= digits[0] <= '9');
    assert('0' <= digits[digits.len() - 1] <= '9');
    lemma_trimmed_after(digits, "\n"@);
    reveal_with_fuel(trimmed_end, 2);
    assert("\n"@.drop_last() =~= Seq::<char>::empty());
    assert(digits + trimmed_end("\n"@) =~= digits);
    decimal_reads_back(pid as nat, u32::MAX as nat);
}

/// What a lock file records is what is read from it: its owner, and where the question is.
pub proof fn record_reads_back(contents: Seq<char>, pid: u32, chat: Seq<char>, message_id: i64)
    requires
        records(contents, pid, chat, message_id),
    ensures
        lock_owner_view(contents) == Some(pid),
        abandoned_target_view(contents) == Some((chat, message_id)),
        abandoned_call_view(Some(contents)) == Some(
            edit_question_view(chat, message_id, abandoned_view()),
        ),
{
    lemma_record_names_differ();
    lemma_trimmed_end_keeps_first(contents);
    let digits = without_plus(trimmed(contents));
    assert(digits.first() == '{');
    assert(!('0' <= digits[0] <= '9'));
}

proof fn lemma_record_names_differ()
    ensures
        "pid"@.len() == 3,
        "chat_id"@.len() == 7,
        "message_id"@.len() == 10,
{
    reveal_strlit("pid");
    reveal_strlit("chat_id");
    reveal_strlit("message_id");
}

/// What a lock file holds while its owner has not sent a question.
pub fn claim_lock(pid: u32) -> (contents: String)
    ensures
        contents@ == claim_view(pid),
{
    let mut contents: String = decimal_text(pid as u64);
    contents.append("\n");
    contents
}

/// What a lock file holds once its owner has sent a question.
pub fn record_question(pid: u32, chat: &str, message_id: i64) -> (contents: String)
    ensures
        contents@ == written_json(record_view(pid, chat@, message_id)),
        records(contents@, pid, chat@, message_id),
{
    proof {
        lemma_record_names_differ();
    }
    let record: Value = Fields::new().with("pid", unsigned_value(pid as u64)).with(
        "chat_id",
        text_value(chat.to_owned()),
    ).with("message_id", signed_value(message_id)).into_value();
    assert(json_of(record) == record_view(pid, chat@, message_id));
    write_json(&record)
}

/// The owner that a record names.
pub fn recorded_pid(record: &Value) -> (pid: Option<u32>)
    ensures
        pid == recorded_pid_view(json_of(*record)),
{
    match get(record, "pid") {
        Some(pid) => match pid.as_u64() {
            Some(pid) => if pid <= u32::MAX as u64 {
                Some(pid as u32)
            } else {
                None
            },
            None => None,
        },
        None => None,
    }
}

/// The chat and the message that a record names.
pub fn recorded_target(record: &Value) -> (target: Option<(String, i64)>)
    ensures
        match target {
            Some((chat, message_id)) => recorded_target_view(json_of(*record)) == Some(
                (chat@, message_id),
            ),
            None => recorded_target_view(json_of(*record)) is None,
        },
{
    let chat: &str = match get(record, "chat_id") {
        Some(chat) => match chat.as_str() {
            Some(chat) => chat,
            None => return None,
        },
        None => return None,
    };
    match get(record, "message_id") {
        Some(message_id) => match message_id.as_i64() {
            Some(message_id) => Some((chat.to_owned(), message_id)),
            None => None,
        },
        None => None,
    }
}

/// The owner that a lock file names: a number by itself, or a record.
pub fn lock_owner_pid(contents: &str) -> (pid: Option<u32>)
    ensures
        pid == lock_owner_view(contents@),
{
    match parse_unsigned(trim(contents), u32::MAX as u64) {
        Some(pid) => Some(pid as u32),
        None => match parse_json(contents) {
            Some(record) => recorded_pid(&record),
            None => None,
        },
    }
}

/// The chat and the message that a lock file names.
pub fn abandoned_message_target(contents: &str) -> (target: Option<(String, i64)>)
    ensures
        match target {
            Some((chat, message_id)) => abandoned_target_view(contents@) == Some(
                (chat@, message_id),
            ),
            None => abandoned_target_view(contents@) is None,
        },
{
    match parse_json(contents) {
        Some(record) => recorded_target(&record),
        None => None,
    }
}

/// The call that closes the question that a lock file names, if the file could be read and
/// names one.
pub fn mark_abandoned(contents: Option<&str>) -> (call: Option<Call>)
    ensures
        optional_call_view(call) == abandoned_call_view(optional_view(contents)),
{
    match contents {
        Some(contents) => match abandoned_message_target(contents) {
            Some((chat, message_id)) => Some(
                edit_question(chat.as_str(), message_id, abandoned_text()),
            ),
            None => None,
        },
        None => None,
    }
}

/// Whether a lock was left behind. `owner_alive` says whether its owner runs, if it names one;
/// `age` says how long ago the file was written, if that is known.
pub fn is_stale(owner_alive: Option<bool>, age: Option<Span>) -> (is: bool)
    ensures
        is == stale(owner_alive, age),
{
    if let Some(alive) = owner_alive {
        if !alive {
            return true;
        }
    }
    match age {
        Some(age) => age.secs > MAX_TIMEOUT_SECS + LOCK_GRACE_SECS || (age.secs == MAX_TIMEOUT_SECS
            + LOCK_GRACE_SECS && age.nanos > 0),
        None => false,
    }
}

/// The next step of taking the lock, at the attempt with number `attempt`, counted from zero.
pub fn acquire(attempt: usize, event: LockEvent) -> (step: LockStep)
    ensures
        step == lock_step(attempt as nat, event),
{
    match event {
        LockEvent::Created => LockStep::Held,
        LockEvent::Exists => if attempt == 0 {
            LockStep::Judge
        } else {
            LockStep::Busy
        },
        LockEvent::Judged { stale } => if attempt == 0 && stale {
            LockStep::Clear
        } else {
            LockStep::Busy
        },
        LockEvent::Failed => LockStep::Fail,
    }
}

} // verus!
