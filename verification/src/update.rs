//! What Telegram's updates say: how far they go, and what the user answered.

use crate::call::{
    answer_callback, answer_callback_view, callback_data_view, each_choice_has_its_button,
    keyboard_of, remove_buttons_view, remove_question_buttons, send_question_view, Call, CallView,
    QUESTION_EDIT_TIMEOUT_SECS,
};
use crate::error::AskError;
use crate::json::{
    as_list, as_signed, as_text, at_pointer, get, id_at, json_of, jsons_of, member, signed_at,
    str_at, text_at, Json,
};
use crate::text::{
    all_digits, all_white_space, decimal, decimal_reads_back, has_bare_ends,
    lemma_decimal_is_digits, only_decimal_numbers_are_read, parse_unsigned, parsed_unsigned,
    same_text, spells, strip_prefix, texts_view, trim, trimmed, trimming_leaves_what_is_inside,
    trimming_takes_only_outer_white_space, without_plus,
};
use serde_json::Value;
use vstd::prelude::*;

verus! {

/// The number of an update, if it has one.
pub open spec fn update_id(update: Json) -> Option<i64> {
    match member(update, "update_id"@) {
        Some(id) => as_signed(id),
        None => None,
    }
}

/// The number that comes after those of all the updates, if any of them has one.
pub open spec fn next_offset_view(updates: Seq<Json>) -> Option<int>
    decreases updates.len(),
{
    if updates.len() == 0 {
        None
    } else {
        match (next_offset_view(updates.drop_last()), update_id(updates.last())) {
            (Some(next), Some(id)) => if id + 1 > next {
                Some(id + 1)
            } else {
                Some(next)
            },
            (Some(next), None) => Some(next),
            (None, Some(id)) => Some(id + 1),
            (None, None) => None,
        }
    }
}

/// Whether the number that comes after those of all the updates fits 64 bits.
pub open spec fn offset_fits(updates: Seq<Json>) -> bool {
    match next_offset_view(updates) {
        Some(next) => next <= i64::MAX,
        None => true,
    }
}

/// The offset after a batch of updates is above the number of every one of them, and it is
/// the number after one of them: none is read twice, and none is skipped.
pub proof fn offset_passes_exactly_the_updates(updates: Seq<Json>)
    ensures
        forall|i: int|
            0 <= i < updates.len() && update_id(#[trigger] updates[i]) is Some ==> (
            next_offset_view(updates) is Some && update_id(updates[i])->0 < next_offset_view(
                updates,
            )->0),
        next_offset_view(updates) matches Some(next) ==> exists|i: int|
            0 <= i < updates.len() && update_id(#[trigger] updates[i]) is Some && update_id(
                updates[i],
            )->0 + 1 == next,
    decreases updates.len(),
{
    if updates.len() > 0 {
        let rest = updates.drop_last();
        offset_passes_exactly_the_updates(rest);
        assert forall|i: int|
            0 <= i < updates.len() && update_id(#[trigger] updates[i]) is Some implies (
        next_offset_view(updates) is Some && update_id(updates[i])->0 < next_offset_view(
            updates,
        )->0) by {
            if i < rest.len() {
                assert(rest[i] == updates[i]);
            }
        }
        if let Some(next) = next_offset_view(updates) {
            let last = updates.len() - 1;
            if update_id(updates[last]) is Some && update_id(updates[last])->0 + 1 == next {
            } else {
                let i = choose|i: int|
                    0 <= i < rest.len() && update_id(#[trigger] rest[i]) is Some && update_id(
                        rest[i],
                    )->0 + 1 == next;
                assert(updates[i] == rest[i]);
            }
        }
    }
}

/// Whether a press of a button is the user's, in their chat with the bot.
pub open spec fn callback_is_from(update: Json, user_id: i64) -> bool {
    &&& signed_at(update, "/callback_query/message/chat/id"@) == Some(user_id)
    &&& signed_at(update, "/callback_query/from/id"@) == Some(user_id)
}

/// Whether a message is the user's, in their chat with the bot.
pub open spec fn message_is_from(update: Json, user_id: i64) -> bool {
    &&& signed_at(update, "/message/chat/id"@) == Some(user_id)
    &&& signed_at(update, "/message/from/id"@) == Some(user_id)
}

/// What all the buttons of a request send back first.
pub open spec fn callback_prefix(request_id: Seq<char>) -> Seq<char> {
    "talbot:"@ + request_id + ":"@
}

/// Which choice a button of this request is for, going by what it sent back.
pub open spec fn chosen_index(data: Seq<char>, request_id: Seq<char>) -> Option<nat> {
    let prefix = callback_prefix(request_id);
    if prefix.is_prefix_of(data) {
        parsed_unsigned(data.skip(prefix.len() as int), usize::MAX as nat)
    } else {
        None
    }
}

/// An answer: the button that was pressed, or the text that was sent.
#[derive(Debug, PartialEq, Eq)]
pub enum IncomingAnswer {
    /// A choice, and the press of a button that made it.
    Choice { text: String, callback_query_id: String },
    /// The user's own words.
    Text(String),
}

/// An answer, as plain text.
#[verifier::ext_equal]
pub enum AnswerView {
    Choice { text: Seq<char>, callback_query_id: Seq<char> },
    Text(Seq<char>),
}

impl AnswerView {
    /// What was answered.
    pub open spec fn text(self) -> Seq<char> {
        match self {
            AnswerView::Choice { text, .. } => text,
            AnswerView::Text(text) => text,
        }
    }
}

impl View for IncomingAnswer {
    type V = AnswerView;

    open spec fn view(&self) -> AnswerView {
        match self {
            IncomingAnswer::Choice { text, callback_query_id } => AnswerView::Choice {
                text: text@,
                callback_query_id: callback_query_id@,
            },
            IncomingAnswer::Text(text) => AnswerView::Text(text@),
        }
    }
}

impl IncomingAnswer {
    /// What was answered.
    pub fn text(&self) -> (text: &str)
        ensures
            text@ == self@.text(),
    {
        match self {
            IncomingAnswer::Choice { text, .. } => text.as_str(),
            IncomingAnswer::Text(text) => text.as_str(),
        }
    }
}

/// An optional answer, as plain text.
pub open spec fn answer_view(answer: Option<IncomingAnswer>) -> Option<AnswerView> {
    match answer {
        Some(answer) => Some(answer@),
        None => None,
    }
}

/// What the press of a button in `update` answers to the request, if it answers it.
pub open spec fn button_answer(
    update: Json,
    request_id: Seq<char>,
    choices: Seq<Seq<char>>,
) -> Option<AnswerView> {
    match (text_at(update, "/callback_query/data"@), text_at(update, "/callback_query/id"@)) {
        (Some(data), Some(callback_query_id)) => match chosen_index(data, request_id) {
            Some(index) => if index < choices.len() {
                Some(AnswerView::Choice { text: choices[index as int], callback_query_id })
            } else {
                None
            },
            None => None,
        },
        _ => None,
    }
}

/// What the message in `update` answers, if it has words.
pub open spec fn written_answer(update: Json) -> Option<AnswerView> {
    match text_at(update, "/message/text"@) {
        Some(text) => if trimmed(text).len() > 0 {
            Some(AnswerView::Text(trimmed(text)))
        } else {
            None
        },
        None => None,
    }
}

/// What `update` answers to the request, if the user answers it there.
pub open spec fn parsed_answer(
    update: Json,
    user_id: i64,
    request_id: Seq<char>,
    choices: Seq<Seq<char>>,
) -> Option<AnswerView> {
    if callback_is_from(update, user_id) {
        button_answer(update, request_id, choices)
    } else if message_is_from(update, user_id) {
        written_answer(update)
    } else {
        None
    }
}

/// What the first of the updates that answers the request answers, if one does.
pub open spec fn first_answer_view(
    updates: Seq<Json>,
    user_id: i64,
    request_id: Seq<char>,
    choices: Seq<Seq<char>>,
) -> Option<AnswerView>
    decreases updates.len(),
{
    if updates.len() == 0 {
        None
    } else {
        match parsed_answer(updates.first(), user_id, request_id, choices) {
            Some(answer) => Some(answer),
            None => first_answer_view(updates.drop_first(), user_id, request_id, choices),
        }
    }
}

/// Only the user answers: what is taken for an answer is a press of a button or a message of
/// theirs, in their chat with the bot.
pub proof fn only_the_user_answers(
    update: Json,
    user_id: i64,
    request_id: Seq<char>,
    choices: Seq<Seq<char>>,
)
    requires
        parsed_answer(update, user_id, request_id, choices) is Some,
    ensures
        callback_is_from(update, user_id) || message_is_from(update, user_id),
{
}

/// An answer by button is one of the choices, and an answer in words is not empty.
pub proof fn answers_are_choices_or_words(
    update: Json,
    user_id: i64,
    request_id: Seq<char>,
    choices: Seq<Seq<char>>,
)
    ensures
        match parsed_answer(update, user_id, request_id, choices) {
            Some(AnswerView::Choice { text, .. }) => choices.contains(text),
            Some(AnswerView::Text(text)) => text.len() > 0,
            None => true,
        },
{
}

/// The first answer in a batch is the user's: it is read from one of the updates, which is a
/// press of a button or a message of theirs, and none before it answers the request.
pub proof fn the_first_answer_is_the_users(
    updates: Seq<Json>,
    user_id: i64,
    request_id: Seq<char>,
    choices: Seq<Seq<char>>,
)
    ensures
        match first_answer_view(updates, user_id, request_id, choices) {
            Some(answer) => exists|i: int|
                0 <= i < updates.len() && #[trigger] parsed_answer(
                    updates[i],
                    user_id,
                    request_id,
                    choices,
                ) == Some(answer) && (callback_is_from(updates[i], user_id) || message_is_from(
                    updates[i],
                    user_id,
                )) && forall|j: int|
                    0 <= j < i ==> #[trigger] parsed_answer(
                        updates[j],
                        user_id,
                        request_id,
                        choices,
                    ) is None,
            None => forall|j: int|
                0 <= j < updates.len() ==> #[trigger] parsed_answer(
                    updates[j],
                    user_id,
                    request_id,
                    choices,
                ) is None,
        },
    decreases updates.len(),
{
    if updates.len() > 0 {
        let rest = updates.drop_first();
        the_first_answer_is_the_users(rest, user_id, request_id, choices);
        assert forall|j: int| 0 < j < updates.len() implies updates[j] == #[trigger] rest[j - 1] by {}
        if parsed_answer(updates[0], user_id, request_id, choices) is None {
            match first_answer_view(updates, user_id, request_id, choices) {
                Some(answer) => {
                    let i = choose|i: int|
                        0 <= i < rest.len() && #[trigger] parsed_answer(
                            rest[i],
                            user_id,
                            request_id,
                            choices,
                        ) == Some(answer) && forall|j: int|
                            0 <= j < i ==> #[trigger] parsed_answer(
                                rest[j],
                                user_id,
                                request_id,
                                choices,
                            ) is None;
                    assert(updates[i + 1] == rest[i]);
                    assert forall|j: int| 0 <= j < i + 1 implies #[trigger] parsed_answer(
                        updates[j],
                        user_id,
                        request_id,
                        choices,
                    ) is None by {
                        if j > 0 {
                            assert(updates[j] == rest[j - 1]);
                        }
                    }
                    assert(parsed_answer(updates[i + 1], user_id, request_id, choices) == Some(
                        answer,
                    ));
                },
                None => {
                    assert forall|j: int| 0 <= j < updates.len() implies #[trigger] parsed_answer(
                        updates[j],
                        user_id,
                        request_id,
                        choices,
                    ) is None by {
                        if j > 0 {
                            assert(updates[j] == rest[j - 1]);
                        }
                    }
                },
            }
        } else {
            assert(updates.first() == updates[0]);
        }
    }
}

/// Each button answers with its choice: what the button at `index` sends back is read as the
/// choice at `index`.
pub proof fn buttons_answer_with_their_choice(
    update: Json,
    user_id: i64,
    request_id: Seq<char>,
    choices: Seq<Seq<char>>,
    index: nat,
    callback_query_id: Seq<char>,
)
    requires
        index < choices.len() <= usize::MAX,
        callback_is_from(update, user_id),
        text_at(update, "/callback_query/data"@) == Some(callback_data_view(request_id, index)),
        text_at(update, "/callback_query/id"@) == Some(callback_query_id),
    ensures
        parsed_answer(update, user_id, request_id, choices) == Some(
            AnswerView::Choice { text: choices[index as int], callback_query_id },
        ),
{
    let prefix = callback_prefix(request_id);
    let data = callback_data_view(request_id, index);
    assert(data =~= prefix + decimal(index));
    assert(data.subrange(0, prefix.len() as int) =~= prefix);
    assert(data.skip(prefix.len() as int) =~= decimal(index));
    decimal_reads_back(index, usize::MAX as nat);
}

/// The buttons of another request answer nothing: a late press cannot be mistaken for an
/// answer to a later question.
pub proof fn buttons_of_another_request_answer_nothing(
    update: Json,
    user_id: i64,
    request_id: Seq<char>,
    choices: Seq<Seq<char>>,
    other_request: Seq<char>,
    index: nat,
)
    requires
        other_request != request_id,
        callback_is_from(update, user_id),
        text_at(update, "/callback_query/data"@) == Some(callback_data_view(other_request, index)),
    ensures
        parsed_answer(update, user_id, request_id, choices) is None,
{
    let data = callback_data_view(other_request, index);
    let prefix = callback_prefix(request_id);
    if chosen_index(data, request_id) is Some {
        reveal_strlit("talbot:");
        reveal_strlit(":");
        lemma_decimal_is_digits(index);
        let rest = data.skip(prefix.len() as int);
        let colon = 7 + other_request.len() as int;
        let last = prefix.len() - 1;
        assert(data.subrange(0, prefix.len() as int) == prefix);
        assert(data[colon] == ':');
        assert(prefix[last] == ':');
        assert(data[last] == data.subrange(0, prefix.len() as int)[last]);
        if colon < last {
            assert(data[last] == decimal(index)[last - colon - 1]);
        }
        if last < colon {
            assert(data[colon] == rest[colon - last - 1]);
            let digits = without_plus(rest);
            assert(all_digits(digits));
            if digits == rest {
                assert('0' <= digits[colon - last - 1] <= '9');
            } else if colon - last - 1 > 0 {
                assert(digits[colon - last - 2] == rest[colon - last - 1]);
            }
        }
        assert(colon == last);
        assert forall|i: int| 0 <= i < request_id.len() implies other_request[i]
            == request_id[i] by {
            assert(data[7 + i] == other_request[i]);
            assert(data.subrange(0, prefix.len() as int)[7 + i] == prefix[7 + i]);
            assert(prefix[7 + i] == request_id[i]);
        }
        assert(other_request =~= request_id);
    }
}

/// The number of an update is the whole number under that name.
pub proof fn updates_are_numbered(update: Json, id: i64)
    ensures
        update_id(update) == Some(id) <==> member(update, "update_id"@) == Some(
            Json::Integer(id as int),
        ),
{
}

/// There is a number after those of all the updates exactly if none of them has the last one.
pub proof fn only_the_last_number_leaves_no_room(updates: Seq<Json>)
    ensures
        offset_fits(updates) <==> forall|i: int|
            0 <= i < updates.len() ==> member(#[trigger] updates[i], "update_id"@) != Some(
                Json::Integer(i64::MAX as int),
            ),
{
    offset_passes_exactly_the_updates(updates);
    assert forall|i: int| 0 <= i < updates.len() implies (update_id(#[trigger] updates[i]) == Some(
        i64::MAX,
    ) <==> member(updates[i], "update_id"@) == Some(Json::Integer(i64::MAX as int))) by {
        updates_are_numbered(updates[i], i64::MAX);
    }
}

/// A press or a message is the user's exactly if both the chat that it is in and its sender have
/// the number of the user.
pub proof fn the_user_is_told_by_chat_and_sender(update: Json, user_id: i64)
    ensures
        ({
            let user = Some(Json::Integer(user_id as int));
            &&& callback_is_from(update, user_id) <==> at_pointer(
                update,
                "/callback_query/message/chat/id"@,
            ) == user && at_pointer(update, "/callback_query/from/id"@) == user
            &&& message_is_from(update, user_id) <==> at_pointer(update, "/message/chat/id"@)
                == user && at_pointer(update, "/message/from/id"@) == user
        }),
{
}

/// Whether what a button sent back names the request and the choice with number `index`.
pub open spec fn names_choice(data: Seq<char>, request_id: Seq<char>, index: nat) -> bool {
    exists|number: Seq<char>| #[trigger]
        ("talbot:"@ + request_id + ":"@ + number) == data && (spells(number, index) || (number.len()
            > 0 && number[0] == '+' && spells(number.skip(1), index)))
}

/// Whether `inner` stands in `text` with nothing but white space around it, and has none at its
/// own ends.
pub open spec fn is_inside(inner: Seq<char>, text: Seq<char>) -> bool {
    &&& has_bare_ends(inner)
    &&& exists|before: Seq<char>, after: Seq<char>|
        all_white_space(before) && all_white_space(after) && #[trigger] (before + inner + after)
            == text
}

/// A press of a button answers the request exactly if it is the user's, names the request and
/// one of the choices, and has an id. The answer is that choice, with that id.
pub proof fn a_press_answers_with_the_choice_it_names(
    update: Json,
    user_id: i64,
    request_id: Seq<char>,
    choices: Seq<Seq<char>>,
    text: Seq<char>,
    callback_query_id: Seq<char>,
)
    requires
        choices.len() <= usize::MAX,
    ensures
        parsed_answer(update, user_id, request_id, choices) == Some(
            AnswerView::Choice { text, callback_query_id },
        ) <==> callback_is_from(update, user_id) && text_at(update, "/callback_query/id"@) == Some(
            callback_query_id,
        ) && (text_at(update, "/callback_query/data"@) matches Some(data) && exists|index: nat|
            index < choices.len() && choices[index as int] == text && #[trigger] names_choice(
                data,
                request_id,
                index,
            )),
{
    if let Some(data) = text_at(update, "/callback_query/data"@) {
        let prefix = callback_prefix(request_id);
        let rest = data.skip(prefix.len() as int);
        if let Some(index) = chosen_index(data, request_id) {
            only_decimal_numbers_are_read(rest, usize::MAX as nat, index);
            assert(data.subrange(0, prefix.len() as int) == prefix);
            assert(prefix + rest =~= data);
            assert("talbot:"@ + request_id + ":"@ + rest == data);
            assert(names_choice(data, request_id, index));
        }
        assert forall|index: nat|
            index < choices.len() && #[trigger] names_choice(
                data,
                request_id,
                index,
            ) implies chosen_index(data, request_id) == Some(index) by {
            let number = choose|number: Seq<char>| #[trigger]
                ("talbot:"@ + request_id + ":"@ + number) == data && (spells(number, index) || (
                number.len() > 0 && number[0] == '+' && spells(number.skip(1), index)));
            assert(data.subrange(0, prefix.len() as int) =~= prefix);
            assert(rest =~= number);
            only_decimal_numbers_are_read(rest, usize::MAX as nat, index);
        }
    }
}

/// A message answers exactly if it is the user's, is not also a press of theirs, and holds words.
/// The answer is all that stands between the white space around it.
pub proof fn words_answer_whole(
    update: Json,
    user_id: i64,
    request_id: Seq<char>,
    choices: Seq<Seq<char>>,
    words: Seq<char>,
)
    ensures
        parsed_answer(update, user_id, request_id, choices) == Some(AnswerView::Text(words))
            <==> !callback_is_from(update, user_id) && message_is_from(update, user_id)
            && words.len() > 0 && (text_at(update, "/message/text"@) matches Some(text)
            && is_inside(words, text)),
{
    if let Some(text) = text_at(update, "/message/text"@) {
        trimming_takes_only_outer_white_space(text);
        if is_inside(words, text) {
            let (before, after) = choose|before: Seq<char>, after: Seq<char>|
                all_white_space(before) && all_white_space(after) && #[trigger] (before + words
                    + after) == text;
            trimming_leaves_what_is_inside(before, words, after);
        }
    }
}

/// What a question sends out comes back as it should: whoever presses the button that shows a
/// choice, if they are the user, answers with that choice.
pub proof fn the_button_of_a_choice_answers_with_it(
    chat: Seq<char>,
    question: Seq<char>,
    title: Option<Seq<char>>,
    request_id: Seq<char>,
    choices: Seq<Seq<char>>,
    i: int,
    update: Json,
    user_id: i64,
    callback_query_id: Seq<char>,
)
    requires
        0 <= i < choices.len() <= usize::MAX,
        callback_is_from(update, user_id),
        text_at(update, "/callback_query/id"@) == Some(callback_query_id),
        ({
            let body = send_question_view(chat, question, title, request_id, choices).body;
            let button = as_list(keyboard_of(body)->0[i])->0[0];
            at_pointer(update, "/callback_query/data"@) == member(button, "callback_data"@)
        }),
    ensures
        ({
            let body = send_question_view(chat, question, title, request_id, choices).body;
            let button = as_list(keyboard_of(body)->0[i])->0[0];
            &&& member(button, "text"@) == Some(Json::Text(choices[i]))
            &&& parsed_answer(update, user_id, request_id, choices) == Some(
                AnswerView::Choice { text: choices[i], callback_query_id },
            )
        }),
{
    each_choice_has_its_button(chat, question, title, request_id, choices);
    assert(callback_data_view(request_id, i as nat) == "talbot:"@ + request_id + ":"@ + decimal(
        i as nat,
    ));
    buttons_answer_with_their_choice(
        update,
        user_id,
        request_id,
        choices,
        i as nat,
        callback_query_id,
    );
}

/// What was answered is the choice, or the words.
pub proof fn answers_are_read_as_they_are(
    text: Seq<char>,
    callback_query_id: Seq<char>,
    answer: IncomingAnswer,
)
    ensures
        (AnswerView::Choice { text, callback_query_id }).text() == text,
        AnswerView::Text(text).text() == text,
        match answer {
            IncomingAnswer::Choice { text, callback_query_id } => answer@ == (AnswerView::Choice {
                text: text@,
                callback_query_id: callback_query_id@,
            }),
            IncomingAnswer::Text(text) => answer@ == AnswerView::Text(text@),
        },
        answer_view(Some(answer)) == Some(answer@),
        answer_view(None) is None,
{
}

/// An old press is closed exactly if it is the user's and has an id. Its spinner ends with word
/// that the action expired, and the buttons of its message go if the message has a number.
pub proof fn old_presses_of_the_user_are_closed(update: Json, user_id: i64)
    ensures
        ({
            let closed = dismissal_view(update, user_id);
            let id = text_at(update, "/callback_query/id"@);
            &&& closed is Some <==> callback_is_from(update, user_id) && id is Some
            &&& closed matches Some(closed) ==> {
                &&& closed.answer == answer_callback_view(
                    id->0,
                    "🟠 This action expired. Go back to Codex and try again."@,
                    Some(5u64),
                )
                &&& match signed_at(update, "/callback_query/message/message_id"@) {
                    Some(message_id) => closed.remove_buttons == Some(
                        remove_buttons_view(user_id, message_id),
                    ),
                    None => closed.remove_buttons is None,
                }
            }
        }),
{
}

/// What closes an old press is the two calls that it has.
pub proof fn dismissals_are_read_as_they_are(dismissal: Dismissal)
    ensures
        dismissal@.answer == dismissal.answer@,
        match dismissal.remove_buttons {
            Some(call) => dismissal@.remove_buttons == Some(call@),
            None => dismissal@.remove_buttons is None,
        },
{
}

/// A call that may be missing is the call, or is missing.
pub proof fn optional_calls_are_read_as_they_are(call: Call)
    ensures
        optional_call_view(Some(call)) == Some(call@),
        optional_call_view(None) is None,
{
}

/// A chat gives its user exactly if Telegram says that its type is private and what its number
/// is. It is refused as not private exactly if its type is anything else, or missing.
pub proof fn only_private_chats_give_a_user(details: Json, user_id: i64)
    ensures
        ({
            let kind = member(details, "type"@);
            let id = member(details, "id"@);
            let private = Some(Json::Text("private"@));
            &&& private_chat_view(details) == Ok::<i64, AskError>(user_id) <==> kind == private && id
                == Some(Json::Integer(user_id as int))
            &&& private_chat_view(details) == Err::<i64, AskError>(AskError::NotPrivate) <==> kind
                != private
            &&& private_chat_view(details) is Ok || private_chat_view(details) == Err::<
                i64,
                AskError,
            >(AskError::NotPrivate) || private_chat_view(details) == Err::<i64, AskError>(
                AskError::MissingChatId,
            )
        }),
{
}

/// A message that was sent has the number that Telegram gives it, and is refused without one.
pub proof fn sent_messages_have_their_number(sent: Json, message_id: i64)
    ensures
        sent_message_view(sent) == Ok::<i64, AskError>(message_id) <==> member(
            sent,
            "message_id"@,
        ) == Some(Json::Integer(message_id as int)),
        sent_message_view(sent) is Ok || sent_message_view(sent) == Err::<i64, AskError>(
            AskError::MissingMessageId,
        ),
{
}

/// The updates that Telegram handed out.
pub fn read_updates<'a>(reply: &'a Value) -> (updates: Result<&'a Vec<Value>, AskError>)
    ensures
        match updates {
            Ok(updates) => as_list(json_of(*reply)) == Some(jsons_of(updates@)),
            Err(error) => as_list(json_of(*reply)) is None && error == AskError::UpdatesNotArray,
        },
{
    match reply.as_array() {
        Some(updates) => Ok(updates),
        None => Err(AskError::UpdatesNotArray),
    }
}

fn read_update_id(update: &Value) -> (id: Option<i64>)
    ensures
        id == update_id(json_of(*update)),
{
    match get(update, "update_id") {
        Some(id) => id.as_i64(),
        None => None,
    }
}

pub proof fn lemma_jsons_of_one_more(updates: Seq<Value>, i: int)
    requires
        0 <= i < updates.len(),
    ensures
        jsons_of(updates.take(i + 1)).drop_last() == jsons_of(updates.take(i)),
        jsons_of(updates.take(i + 1)).last() == json_of(updates[i]),
{
    assert(jsons_of(updates.take(i + 1)).drop_last() =~= jsons_of(updates.take(i)));
}

/// Whether the number that comes after those of all the updates fits 64 bits.
pub fn has_next_offset(updates: &[Value]) -> (fits: bool)
    ensures
        fits == offset_fits(jsons_of(updates@)),
{
    proof {
        offset_passes_exactly_the_updates(jsons_of(updates@));
    }
    let mut i: usize = 0;
    while i < updates.len()
        invariant
            i <= updates.len(),
            forall|k: int|
                0 <= k < i ==> update_id(#[trigger] jsons_of(updates@)[k]) != Some(i64::MAX),
            forall|k: int|
                0 <= k < updates.len() && update_id(#[trigger] jsons_of(updates@)[k]) is Some ==> (
                next_offset_view(jsons_of(updates@)) is Some && update_id(jsons_of(updates@)[k])->0
                    < next_offset_view(jsons_of(updates@))->0),
            next_offset_view(jsons_of(updates@)) matches Some(next) ==> exists|k: int|
                0 <= k < updates.len() && update_id(#[trigger] jsons_of(updates@)[k]) is Some
                    && update_id(jsons_of(updates@)[k])->0 + 1 == next,
        decreases updates.len() - i,
    {
        if let Some(id) = read_update_id(&updates[i]) {
            if id == i64::MAX {
                assert(update_id(jsons_of(updates@)[i as int]) == Some(i64::MAX));
                return false;
            }
        }
        i = i + 1;
    }
    true
}

/// The number that comes after those of all the updates, if any of them has one: the updates
/// before it need not be read again.
pub fn next_offset(updates: &[Value]) -> (offset: Option<i64>)
    requires
        offset_fits(jsons_of(updates@)),
    ensures
        match offset {
            Some(offset) => next_offset_view(jsons_of(updates@)) == Some(offset as int),
            None => next_offset_view(jsons_of(updates@)) is None,
        },
{
    let mut latest: Option<i64> = None;
    let mut i: usize = 0;
    while i < updates.len()
        invariant
            i <= updates.len(),
            match latest {
                Some(id) => next_offset_view(jsons_of(updates@.take(i as int))) == Some(id + 1),
                None => next_offset_view(jsons_of(updates@.take(i as int))) is None,
            },
        decreases updates.len() - i,
    {
        proof {
            lemma_jsons_of_one_more(updates@, i as int);
        }
        if let Some(id) = read_update_id(&updates[i]) {
            latest =
            match latest {
                Some(before) => if id > before {
                    Some(id)
                } else {
                    Some(before)
                },
                None => Some(id),
            };
        }
        i = i + 1;
    }
    assert(updates@.take(i as int) =~= updates@);
    match latest {
        Some(id) => Some(id + 1),
        None => None,
    }
}

/// What `update` answers to the request, if the user answers it there.
pub fn parse_answer(
    update: &Value,
    user_id: i64,
    request_id: &str,
    choices: &[String],
) -> (answer: Option<IncomingAnswer>)
    ensures
        answer_view(answer) == parsed_answer(
            json_of(*update),
            user_id,
            request_id@,
            texts_view(choices@),
        ),
{
    if id_at(update, "/callback_query/message/chat/id") == Some(user_id) && id_at(
        update,
        "/callback_query/from/id",
    ) == Some(user_id) {
        let data: &str = match str_at(update, "/callback_query/data") {
            Some(data) => data,
            None => return None,
        };
        let mut prefix: String = "talbot:".to_owned();
        prefix.append(request_id);
        prefix.append(":");
        let rest: &str = match strip_prefix(data, prefix.as_str()) {
            Some(rest) => rest,
            None => return None,
        };
        let index: usize = match parse_unsigned(rest, usize::MAX as u64) {
            Some(index) => index as usize,
            None => return None,
        };
        if index >= choices.len() {
            return None;
        }
        let text: String = choices[index].clone();
        let callback_query_id: String = match str_at(update, "/callback_query/id") {
            Some(callback_query_id) => callback_query_id.to_owned(),
            None => return None,
        };
        return Some(IncomingAnswer::Choice { text, callback_query_id });
    }
    if id_at(update, "/message/chat/id") == Some(user_id) && id_at(update, "/message/from/id")
        == Some(user_id) {
        let text: &str = match str_at(update, "/message/text") {
            Some(text) => trim(text),
            None => return None,
        };
        if !text.is_empty() {
            return Some(IncomingAnswer::Text(text.to_owned()));
        }
    }
    None
}

/// What the first of the updates that answers the request answers, if one does.
pub fn first_answer(
    updates: &[Value],
    user_id: i64,
    request_id: &str,
    choices: &[String],
) -> (answer: Option<IncomingAnswer>)
    ensures
        answer_view(answer) == first_answer_view(
            jsons_of(updates@),
            user_id,
            request_id@,
            texts_view(choices@),
        ),
{
    let mut i: usize = 0;
    assert(jsons_of(updates@).skip(0) =~= jsons_of(updates@));
    while i < updates.len()
        invariant
            i <= updates.len(),
            first_answer_view(jsons_of(updates@), user_id, request_id@, texts_view(choices@))
                == first_answer_view(
                jsons_of(updates@).skip(i as int),
                user_id,
                request_id@,
                texts_view(choices@),
            ),
        decreases updates.len() - i,
    {
        assert(jsons_of(updates@).skip(i as int).first() == json_of(updates@[i as int]));
        assert(jsons_of(updates@).skip(i as int).drop_first() =~= jsons_of(updates@).skip(i + 1));
        let answer: Option<IncomingAnswer> = parse_answer(
            &updates[i],
            user_id,
            request_id,
            choices,
        );
        if answer.is_some() {
            return answer;
        }
        i = i + 1;
    }
    None
}

/// What closes an old button: its spinner ends, and it goes if Telegram says where it is.
#[derive(Debug)]
pub struct Dismissal {
    pub answer: Call,
    pub remove_buttons: Option<Call>,
}

/// What closes an old button, with what the calls hold.
#[verifier::ext_equal]
pub struct DismissalView {
    pub answer: CallView,
    pub remove_buttons: Option<CallView>,
}

/// An optional call, with what it holds.
pub open spec fn optional_call_view(call: Option<Call>) -> Option<CallView> {
    match call {
        Some(call) => Some(call@),
        None => None,
    }
}

impl View for Dismissal {
    type V = DismissalView;

    open spec fn view(&self) -> DismissalView {
        DismissalView {
            answer: self.answer@,
            remove_buttons: optional_call_view(self.remove_buttons),
        }
    }
}

/// What closes the button that was pressed in `update`, if it is the user's press.
pub open spec fn dismissal_view(update: Json, user_id: i64) -> Option<DismissalView> {
    if callback_is_from(update, user_id) {
        match text_at(update, "/callback_query/id"@) {
            Some(callback_query_id) => Some(
                DismissalView {
                    answer: answer_callback_view(
                        callback_query_id,
                        "🟠 This action expired. Go back to Codex and try again."@,
                        Some(QUESTION_EDIT_TIMEOUT_SECS),
                    ),
                    remove_buttons: match signed_at(
                        update,
                        "/callback_query/message/message_id"@,
                    ) {
                        Some(message_id) => Some(remove_buttons_view(user_id, message_id)),
                        None => None,
                    },
                },
            ),
            None => None,
        }
    } else {
        None
    }
}

/// What closes the button that was pressed in `update`, if it is the user's press.
pub fn dismiss_stale_callback(update: &Value, user_id: i64) -> (dismissal: Option<Dismissal>)
    ensures
        match dismissal {
            Some(dismissal) => dismissal_view(json_of(*update), user_id) == Some(dismissal@),
            None => dismissal_view(json_of(*update), user_id) is None,
        },
{
    let chat: i64 = match id_at(update, "/callback_query/message/chat/id") {
        Some(chat) => chat,
        None => return None,
    };
    if chat != user_id || id_at(update, "/callback_query/from/id") != Some(user_id) {
        return None;
    }
    let callback_query_id: &str = match str_at(update, "/callback_query/id") {
        Some(callback_query_id) => callback_query_id,
        None => return None,
    };
    let answer: Call = answer_callback(
        callback_query_id,
        "🟠 This action expired. Go back to Codex and try again.",
        Some(QUESTION_EDIT_TIMEOUT_SECS),
    );
    let remove_buttons: Option<Call> = match id_at(update, "/callback_query/message/message_id") {
        Some(message_id) => Some(remove_question_buttons(chat, message_id)),
        None => None,
    };
    Some(Dismissal { answer, remove_buttons })
}

/// The user whose private chat Telegram described, or what is wrong with it.
pub open spec fn private_chat_view(details: Json) -> Result<i64, AskError> {
    let is_private = match member(details, "type"@) {
        Some(kind) => as_text(kind) == Some("private"@),
        None => false,
    };
    if !is_private {
        Err(AskError::NotPrivate)
    } else {
        match member(details, "id"@) {
            Some(id) => match as_signed(id) {
                Some(id) => Ok(id),
                None => Err(AskError::MissingChatId),
            },
            None => Err(AskError::MissingChatId),
        }
    }
}

/// The user whose private chat Telegram described, or what is wrong with it.
pub fn ensure_private_chat(details: &Value) -> (user_id: Result<i64, AskError>)
    ensures
        user_id == private_chat_view(json_of(*details)),
{
    let is_private: bool = match get(details, "type") {
        Some(kind) => match kind.as_str() {
            Some(kind) => same_text(kind, "private"),
            None => false,
        },
        None => false,
    };
    if !is_private {
        return Err(AskError::NotPrivate);
    }
    match get(details, "id") {
        Some(id) => match id.as_i64() {
            Some(id) => Ok(id),
            None => Err(AskError::MissingChatId),
        },
        None => Err(AskError::MissingChatId),
    }
}

/// The message that Telegram sent.
pub open spec fn sent_message_view(sent: Json) -> Result<i64, AskError> {
    match member(sent, "message_id"@) {
        Some(id) => match as_signed(id) {
            Some(id) => Ok(id),
            None => Err(AskError::MissingMessageId),
        },
        None => Err(AskError::MissingMessageId),
    }
}

/// The message that Telegram sent.
pub fn read_message_id(sent: &Value) -> (message_id: Result<i64, AskError>)
    ensures
        message_id == sent_message_view(json_of(*sent)),
{
    match get(sent, "message_id") {
        Some(id) => match id.as_i64() {
            Some(id) => Ok(id),
            None => Err(AskError::MissingMessageId),
        },
        None => Err(AskError::MissingMessageId),
    }
}

} // verus!
