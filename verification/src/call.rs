//! The calls of the Telegram Bot API that a question makes, with their bodies.

use crate::json::{
    as_list, json_of, jsons_of, list_value, member, signed_value, text_value, unsigned_value,
    Fields, Json,
};
use crate::message::{
    answered_text, answered_view, cancelled_text, cancelled_view, expired_text, expired_view,
    pending_text, pending_view,
};
use crate::text::{
    decimal, decimal_text, hexadecimal, hexadecimal_is_injective, hexadecimal_text, optional_view,
    texts_view,
};
use serde_json::Value;
use vstd::prelude::*;

verus! {

/// How many seconds a call that closes a question or a button may take.
pub const QUESTION_EDIT_TIMEOUT_SECS: u64 = 5;

/// How many updates Telegram hands out at once.
pub const UPDATE_LIMIT: u64 = 100;

/// A method of the Bot API.
#[derive(Clone, Copy, Debug, PartialEq, Eq, Structural)]
pub enum Method {
    GetChat,
    GetUpdates,
    SendMessage,
    EditMessageText,
    EditMessageReplyMarkup,
    AnswerCallbackQuery,
}

impl Method {
    /// What Telegram calls the method.
    pub open spec fn name_view(self) -> Seq<char> {
        match self {
            Method::GetChat => "getChat"@,
            Method::GetUpdates => "getUpdates"@,
            Method::SendMessage => "sendMessage"@,
            Method::EditMessageText => "editMessageText"@,
            Method::EditMessageReplyMarkup => "editMessageReplyMarkup"@,
            Method::AnswerCallbackQuery => "answerCallbackQuery"@,
        }
    }

    /// What Telegram calls the method.
    pub fn name(&self) -> (name: &'static str)
        ensures
            name@ == self.name_view(),
    {
        match self {
            Method::GetChat => "getChat",
            Method::GetUpdates => "getUpdates",
            Method::SendMessage => "sendMessage",
            Method::EditMessageText => "editMessageText",
            Method::EditMessageReplyMarkup => "editMessageReplyMarkup",
            Method::AnswerCallbackQuery => "answerCallbackQuery",
        }
    }
}

/// A call to make: the method, its body, and how many seconds it may take if it is not to
/// take as long as any other call.
#[derive(Debug)]
pub struct Call {
    pub method: Method,
    pub body: Value,
    pub timeout_secs: Option<u64>,
}

/// A call, with what its body holds.
#[verifier::ext_equal]
pub struct CallView {
    pub method: Method,
    pub body: Json,
    pub timeout_secs: Option<u64>,
}

impl View for Call {
    type V = CallView;

    open spec fn view(&self) -> CallView {
        CallView {
            method: self.method,
            body: json_of(self.body),
            timeout_secs: self.timeout_secs,
        }
    }
}

/// A keyboard without buttons.
pub open spec fn no_buttons() -> Json {
    Json::Object(map!["inline_keyboard"@ => Json::List(Seq::empty())])
}

/// What a button of a question sends back: whose it is and which choice it is for.
pub open spec fn callback_data_view(request_id: Seq<char>, index: nat) -> Seq<char> {
    "talbot:"@ + request_id + ":"@ + decimal(index)
}

/// The button for one choice.
pub open spec fn button_view(choice: Seq<char>, request_id: Seq<char>, index: nat) -> Json {
    Json::Object(
        map![
            "text"@ => Json::Text(choice),
            "callback_data"@ => Json::Text(callback_data_view(request_id, index)),
        ],
    )
}

/// The rows of a keyboard with one button per row, one for each choice.
pub open spec fn rows_view(request_id: Seq<char>, choices: Seq<Seq<char>>) -> Seq<Json> {
    Seq::new(
        choices.len(),
        |i: int| Json::List(seq![button_view(choices[i], request_id, i as nat)]),
    )
}

/// What a request is called: the process that makes it and the time in nanoseconds, in
/// hexadecimal.
pub open spec fn request_id_view(pid: u32, nanos: u128) -> Seq<char> {
    hexadecimal(pid as nat) + hexadecimal(nanos as nat)
}

/// Requests that a process makes at different times have different names.
pub proof fn requests_of_a_process_differ(pid: u32, nanos: u128, other: u128)
    requires
        nanos != other,
    ensures
        request_id_view(pid, nanos) != request_id_view(pid, other),
{
    if request_id_view(pid, nanos) == request_id_view(pid, other) {
        let start = hexadecimal(pid as nat);
        assert(request_id_view(pid, nanos).skip(start.len() as int) =~= hexadecimal(nanos as nat));
        assert(request_id_view(pid, other).skip(start.len() as int) =~= hexadecimal(other as nat));
        hexadecimal_is_injective(nanos as nat, other as nat);
    }
}

/// The call that looks up a chat.
pub open spec fn get_chat_view(chat: Seq<char>) -> CallView {
    CallView {
        method: Method::GetChat,
        body: Json::Object(map!["chat_id"@ => Json::Text(chat)]),
        timeout_secs: None,
    }
}

/// The kinds of update that a question needs.
pub open spec fn allowed_updates() -> Json {
    Json::List(seq![Json::Text("message"@), Json::Text("callback_query"@)])
}

/// The call that waits up to `timeout_secs` for updates, from `offset` on if there is one.
pub open spec fn get_updates_view(offset: Option<i64>, timeout_secs: u64) -> CallView {
    let fields = map![
        "timeout"@ => Json::Integer(timeout_secs as int),
        "limit"@ => Json::Integer(UPDATE_LIMIT as int),
        "allowed_updates"@ => allowed_updates(),
    ];
    CallView {
        method: Method::GetUpdates,
        body: Json::Object(
            match offset {
                Some(offset) => fields.insert("offset"@, Json::Integer(offset as int)),
                None => fields,
            },
        ),
        timeout_secs: None,
    }
}

/// The call that sends a question with its buttons.
pub open spec fn send_question_view(
    chat: Seq<char>,
    question: Seq<char>,
    title: Option<Seq<char>>,
    request_id: Seq<char>,
    choices: Seq<Seq<char>>,
) -> CallView {
    CallView {
        method: Method::SendMessage,
        body: Json::Object(
            map![
                "chat_id"@ => Json::Text(chat),
                "text"@ => Json::Text(pending_view(question, title)),
                "reply_markup"@ => Json::Object(
                    map!["inline_keyboard"@ => Json::List(rows_view(request_id, choices))],
                ),
            ],
        ),
        timeout_secs: None,
    }
}

/// The call that replaces the text of a message and removes its buttons.
pub open spec fn edit_question_view(chat: Seq<char>, message_id: i64, text: Seq<char>) -> CallView {
    CallView {
        method: Method::EditMessageText,
        body: Json::Object(
            map![
                "chat_id"@ => Json::Text(chat),
                "message_id"@ => Json::Integer(message_id as int),
                "text"@ => Json::Text(text),
                "reply_markup"@ => no_buttons(),
            ],
        ),
        timeout_secs: Some(QUESTION_EDIT_TIMEOUT_SECS),
    }
}

/// The call that removes the buttons of a message and leaves its text.
pub open spec fn remove_buttons_view(chat: i64, message_id: i64) -> CallView {
    CallView {
        method: Method::EditMessageReplyMarkup,
        body: Json::Object(
            map![
                "chat_id"@ => Json::Integer(chat as int),
                "message_id"@ => Json::Integer(message_id as int),
                "reply_markup"@ => no_buttons(),
            ],
        ),
        timeout_secs: Some(QUESTION_EDIT_TIMEOUT_SECS),
    }
}

/// The call that ends the spinner of a button and shows `text`.
pub open spec fn answer_callback_view(
    callback_query_id: Seq<char>,
    text: Seq<char>,
    timeout_secs: Option<u64>,
) -> CallView {
    CallView {
        method: Method::AnswerCallbackQuery,
        body: Json::Object(
            map![
                "callback_query_id"@ => Json::Text(callback_query_id),
                "text"@ => Json::Text(text),
            ],
        ),
        timeout_secs,
    }
}

/// The keyboard that the body of a call gives a message, if it gives it one.
pub open spec fn keyboard_of(body: Json) -> Option<Seq<Json>> {
    match member(body, "reply_markup"@) {
        Some(markup) => match member(markup, "inline_keyboard"@) {
            Some(rows) => as_list(rows),
            None => None,
        },
        None => None,
    }
}

/// What the buttons of a request send back starts with the name of the request, between colons,
/// and ends with the number of the choice.
pub proof fn buttons_name_request_and_choice(request_id: Seq<char>, index: nat)
    ensures
        callback_data_view(request_id, index) == "talbot:"@ + (request_id + (":"@ + decimal(
            index,
        ))),
{
    assert(callback_data_view(request_id, index) =~= "talbot:"@ + (request_id + (":"@ + decimal(
        index,
    ))));
}

/// A question is sent to its chat with the message that asks it, and with one row for each
/// choice. The one button in the row of a choice shows the choice, and sends back the name of the
/// request and the number of the choice.
pub proof fn each_choice_has_its_button(
    chat: Seq<char>,
    question: Seq<char>,
    title: Option<Seq<char>>,
    request_id: Seq<char>,
    choices: Seq<Seq<char>>,
)
    ensures
        ({
            let call = send_question_view(chat, question, title, request_id, choices);
            &&& call.method == Method::SendMessage
            &&& call.timeout_secs is None
            &&& member(call.body, "chat_id"@) == Some(Json::Text(chat))
            &&& member(call.body, "text"@) == Some(Json::Text(pending_view(question, title)))
            &&& forall|key: Seq<char>| #[trigger]
                member(call.body, key) is Some ==> key == "chat_id"@ || key == "text"@ || key
                    == "reply_markup"@
            &&& keyboard_of(call.body) matches Some(rows)
            &&& rows.len() == choices.len()
            &&& forall|i: int|
                0 <= i < choices.len() ==> (as_list(#[trigger] rows[i]) matches Some(row)
                    && row.len() == 1 && member(row[0], "text"@) == Some(Json::Text(choices[i]))
                    && member(row[0], "callback_data"@) == Some(
                    Json::Text("talbot:"@ + request_id + ":"@ + decimal(i as nat)),
                ) && forall|key: Seq<char>| #[trigger]
                    member(row[0], key) is Some ==> key == "text"@ || key == "callback_data"@)
        }),
{
    lemma_field_names_differ();
}

/// A chat is looked up by its name, and by nothing else.
pub proof fn chats_are_looked_up_by_name(chat: Seq<char>)
    ensures
        ({
            let call = get_chat_view(chat);
            &&& call.method == Method::GetChat
            &&& call.timeout_secs is None
            &&& member(call.body, "chat_id"@) == Some(Json::Text(chat))
            &&& forall|key: Seq<char>| #[trigger]
                member(call.body, key) is Some ==> key == "chat_id"@
        }),
{
}

/// Updates are asked for a hundred at a time, as messages and presses of buttons, for as long
/// as is said, and from the offset on exactly if there is one.
pub proof fn updates_are_asked_for_from_the_offset_on(offset: Option<i64>, timeout_secs: u64)
    ensures
        ({
            let call = get_updates_view(offset, timeout_secs);
            &&& call.method == Method::GetUpdates
            &&& call.timeout_secs is None
            &&& member(call.body, "timeout"@) == Some(Json::Integer(timeout_secs as int))
            &&& member(call.body, "limit"@) == Some(Json::Integer(100))
            &&& member(call.body, "allowed_updates"@) == Some(
                Json::List(seq![Json::Text("message"@), Json::Text("callback_query"@)]),
            )
            &&& match offset {
                Some(offset) => member(call.body, "offset"@) == Some(Json::Integer(offset as int)),
                None => member(call.body, "offset"@) is None,
            }
            &&& forall|key: Seq<char>| #[trigger]
                member(call.body, key) is Some ==> key == "timeout"@ || key == "limit"@ || key
                    == "allowed_updates"@ || key == "offset"@
        }),
{
    lemma_field_names_differ();
}

/// An edit replaces the text of the message that it names by the text that it is given, leaves
/// no button, and may take five seconds.
pub proof fn edits_leave_the_text_and_no_button(chat: Seq<char>, message_id: i64, text: Seq<char>)
    ensures
        ({
            let call = edit_question_view(chat, message_id, text);
            &&& call.method == Method::EditMessageText
            &&& call.timeout_secs == Some(5u64)
            &&& member(call.body, "chat_id"@) == Some(Json::Text(chat))
            &&& member(call.body, "message_id"@) == Some(Json::Integer(message_id as int))
            &&& member(call.body, "text"@) == Some(Json::Text(text))
            &&& keyboard_of(call.body) == Some(Seq::<Json>::empty())
            &&& forall|key: Seq<char>| #[trigger]
                member(call.body, key) is Some ==> key == "chat_id"@ || key == "message_id"@ || key
                    == "text"@ || key == "reply_markup"@
        }),
{
    lemma_field_names_differ();
}

/// Removing the buttons of the message that is named leaves none and changes nothing else, and
/// may take five seconds.
pub proof fn removing_buttons_leaves_none(chat: i64, message_id: i64)
    ensures
        ({
            let call = remove_buttons_view(chat, message_id);
            &&& call.method == Method::EditMessageReplyMarkup
            &&& call.timeout_secs == Some(5u64)
            &&& member(call.body, "chat_id"@) == Some(Json::Integer(chat as int))
            &&& member(call.body, "message_id"@) == Some(Json::Integer(message_id as int))
            &&& keyboard_of(call.body) == Some(Seq::<Json>::empty())
            &&& forall|key: Seq<char>| #[trigger]
                member(call.body, key) is Some ==> key == "chat_id"@ || key == "message_id"@ || key
                    == "reply_markup"@
        }),
{
    lemma_field_names_differ();
}

/// A press of a button is answered by its own id, with the text that is given.
pub proof fn presses_are_answered_by_their_id(
    callback_query_id: Seq<char>,
    text: Seq<char>,
    timeout_secs: Option<u64>,
)
    ensures
        ({
            let call = answer_callback_view(callback_query_id, text, timeout_secs);
            &&& call.method == Method::AnswerCallbackQuery
            &&& call.timeout_secs == timeout_secs
            &&& member(call.body, "callback_query_id"@) == Some(Json::Text(callback_query_id))
            &&& member(call.body, "text"@) == Some(Json::Text(text))
            &&& forall|key: Seq<char>| #[trigger]
                member(call.body, key) is Some ==> key == "callback_query_id"@ || key == "text"@
        }),
{
    lemma_field_names_differ();
}

/// The name of a request starts with its process and ends with its time, both in hexadecimal,
/// with nothing between them.
pub proof fn requests_are_named_by_process_and_time(pid: u32, nanos: u128)
    ensures
        ({
            let id = request_id_view(pid, nanos);
            let split = hexadecimal(pid as nat).len() as int;
            &&& split <= id.len()
            &&& id.take(split) == hexadecimal(pid as nat)
            &&& id.skip(split) == hexadecimal(nanos as nat)
        }),
{
    let id = request_id_view(pid, nanos);
    let split = hexadecimal(pid as nat).len() as int;
    assert(id.take(split) =~= hexadecimal(pid as nat));
    assert(id.skip(split) =~= hexadecimal(nanos as nat));
}

/// A call is the method, the body and the time that it has.
pub proof fn calls_are_read_as_they_are(call: Call)
    ensures
        call@.method == call.method,
        call@.body == json_of(call.body),
        call@.timeout_secs == call.timeout_secs,
{
}

proof fn lemma_field_names_differ()
    ensures
        "chat_id"@.len() == 7,
        "text"@.len() == 4,
        "reply_markup"@.len() == 12,
        "message_id"@.len() == 10,
        "callback_query_id"@.len() == 17,
        "callback_data"@.len() == 13,
        "timeout"@.len() == 7,
        "limit"@.len() == 5,
        "allowed_updates"@.len() == 15,
        "offset"@.len() == 6,
{
    reveal_strlit("chat_id");
    reveal_strlit("text");
    reveal_strlit("reply_markup");
    reveal_strlit("message_id");
    reveal_strlit("callback_query_id");
    reveal_strlit("callback_data");
    reveal_strlit("timeout");
    reveal_strlit("limit");
    reveal_strlit("allowed_updates");
    reveal_strlit("offset");
}

/// The call that looks up a chat.
pub fn get_chat(chat: &str) -> (call: Call)
    ensures
        call@ == get_chat_view(chat@),
{
    let body: Value = Fields::new().with("chat_id", text_value(chat.to_owned())).into_value();
    Call { method: Method::GetChat, body, timeout_secs: None }
}

/// The call that waits up to `timeout_secs` for updates, from `offset` on if there is one.
pub fn get_updates(offset: Option<i64>, timeout_secs: u64) -> (call: Call)
    ensures
        call@ == get_updates_view(offset, timeout_secs),
{
    proof {
        lemma_field_names_differ();
    }
    let mut kinds: Vec<Value> = Vec::new();
    kinds.push(text_value("message".to_owned()));
    kinds.push(text_value("callback_query".to_owned()));
    assert(jsons_of(kinds@) =~= seq![Json::Text("message"@), Json::Text("callback_query"@)]);
    let mut fields: Fields = Fields::new().with("timeout", unsigned_value(timeout_secs)).with(
        "limit",
        unsigned_value(UPDATE_LIMIT),
    ).with("allowed_updates", list_value(kinds));
    if let Some(offset) = offset {
        fields = fields.with("offset", signed_value(offset));
    }
    Call { method: Method::GetUpdates, body: fields.into_value(), timeout_secs: None }
}

/// What a request is called: the process that makes it and the time in nanoseconds, in
/// hexadecimal.
pub fn request_id(pid: u32, nanos: u128) -> (id: String)
    ensures
        id@ == request_id_view(pid, nanos),
{
    let mut id: String = hexadecimal_text(pid as u128);
    id.append(hexadecimal_text(nanos).as_str());
    id
}

/// What the button for the choice at `index` sends back.
pub fn callback_data(request_id: &str, index: usize) -> (data: String)
    ensures
        data@ == callback_data_view(request_id@, index as nat),
{
    let mut data: String = "talbot:".to_owned();
    data.append(request_id);
    data.append(":");
    data.append(decimal_text(index as u64).as_str());
    data
}

fn button(choice: &str, request_id: &str, index: usize) -> (value: Value)
    ensures
        json_of(value) == button_view(choice@, request_id@, index as nat),
{
    proof {
        lemma_field_names_differ();
    }
    Fields::new().with("text", text_value(choice.to_owned())).with(
        "callback_data",
        text_value(callback_data(request_id, index)),
    ).into_value()
}

fn keyboard_rows(request_id: &str, choices: &Vec<String>) -> (rows: Vec<Value>)
    ensures
        jsons_of(rows@) == rows_view(request_id@, texts_view(choices@)),
{
    let mut rows: Vec<Value> = Vec::new();
    let mut i: usize = 0;
    while i < choices.len()
        invariant
            i <= choices.len(),
            rows.len() == i,
            forall|k: int|
                0 <= k < i ==> json_of(#[trigger] rows@[k]) == rows_view(
                    request_id@,
                    texts_view(choices@),
                )[k],
        decreases choices.len() - i,
    {
        let mut row: Vec<Value> = Vec::new();
        row.push(button(choices[i].as_str(), request_id, i));
        assert(jsons_of(row@) =~= seq![button_view(choices@[i as int]@, request_id@, i as nat)]);
        rows.push(list_value(row));
        i = i + 1;
    }
    assert(jsons_of(rows@) =~= rows_view(request_id@, texts_view(choices@)));
    rows
}

/// The call that sends a question with one button for each choice.
pub fn send_question(
    chat: &str,
    question: &str,
    conversation_title: Option<&str>,
    request_id: &str,
    choices: &Vec<String>,
) -> (call: Call)
    ensures
        call@ == send_question_view(
            chat@,
            question@,
            optional_view(conversation_title),
            request_id@,
            texts_view(choices@),
        ),
{
    proof {
        lemma_field_names_differ();
    }
    let keyboard: Value = Fields::new().with(
        "inline_keyboard",
        list_value(keyboard_rows(request_id, choices)),
    ).into_value();
    let body: Value = Fields::new().with("chat_id", text_value(chat.to_owned())).with(
        "text",
        text_value(pending_text(question, conversation_title)),
    ).with("reply_markup", keyboard).into_value();
    Call { method: Method::SendMessage, body, timeout_secs: None }
}

fn empty_keyboard() -> (value: Value)
    ensures
        json_of(value) == no_buttons(),
{
    let rows: Vec<Value> = Vec::new();
    assert(jsons_of(rows@) =~= Seq::<Json>::empty());
    Fields::new().with("inline_keyboard", list_value(rows)).into_value()
}

/// The call that replaces the text of a message and removes its buttons.
pub fn edit_question(chat: &str, message_id: i64, text: &str) -> (call: Call)
    ensures
        call@ == edit_question_view(chat@, message_id, text@),
{
    proof {
        lemma_field_names_differ();
    }
    let body: Value = Fields::new().with("chat_id", text_value(chat.to_owned())).with(
        "message_id",
        signed_value(message_id),
    ).with("text", text_value(text.to_owned())).with("reply_markup", empty_keyboard()).into_value();
    Call {
        method: Method::EditMessageText,
        body,
        timeout_secs: Some(QUESTION_EDIT_TIMEOUT_SECS),
    }
}

/// The call that removes the buttons of a message and leaves its text.
pub fn remove_question_buttons(chat: i64, message_id: i64) -> (call: Call)
    ensures
        call@ == remove_buttons_view(chat, message_id),
{
    proof {
        lemma_field_names_differ();
    }
    let body: Value = Fields::new().with("chat_id", signed_value(chat)).with(
        "message_id",
        signed_value(message_id),
    ).with("reply_markup", empty_keyboard()).into_value();
    Call {
        method: Method::EditMessageReplyMarkup,
        body,
        timeout_secs: Some(QUESTION_EDIT_TIMEOUT_SECS),
    }
}

/// The call that ends the spinner of a button and shows `text`.
pub fn answer_callback(callback_query_id: &str, text: &str, timeout_secs: Option<u64>) -> (call:
    Call)
    ensures
        call@ == answer_callback_view(callback_query_id@, text@, timeout_secs),
{
    proof {
        lemma_field_names_differ();
    }
    let body: Value = Fields::new().with(
        "callback_query_id",
        text_value(callback_query_id.to_owned()),
    ).with("text", text_value(text.to_owned())).into_value();
    Call { method: Method::AnswerCallbackQuery, body, timeout_secs }
}

/// The call that closes a question that nobody answered in time.
pub fn expire_question(
    chat: &str,
    message_id: i64,
    question: &str,
    conversation_title: Option<&str>,
    wait: &str,
) -> (call: Call)
    ensures
        call@ == edit_question_view(
            chat@,
            message_id,
            expired_view(question@, optional_view(conversation_title), wait@),
        ),
{
    edit_question(chat, message_id, expired_text(question, conversation_title, wait).as_str())
}

/// The call that closes a question that was withdrawn.
pub fn cancel_question(
    chat: &str,
    message_id: i64,
    question: &str,
    conversation_title: Option<&str>,
) -> (call: Call)
    ensures
        call@ == edit_question_view(
            chat@,
            message_id,
            cancelled_view(question@, optional_view(conversation_title)),
        ),
{
    edit_question(chat, message_id, cancelled_text(question, conversation_title).as_str())
}

/// The call that closes a question that was answered.
pub fn mark_answered(
    chat: &str,
    message_id: i64,
    question: &str,
    conversation_title: Option<&str>,
    answer: &str,
) -> (call: Call)
    ensures
        call@ == edit_question_view(
            chat@,
            message_id,
            answered_view(question@, optional_view(conversation_title), answer@),
        ),
{
    edit_question(chat, message_id, answered_text(question, conversation_title, answer).as_str())
}

} // verus!
