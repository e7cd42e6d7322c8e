//! What may be asked.

use crate::error::AskError;
use crate::text::{optional_view, texts_view, trim, trimmed};
use vstd::prelude::*;

verus! {

/// How long to wait for an answer if the caller does not say.
pub const DEFAULT_TIMEOUT_SECS: u64 = 2 * 60 * 60;

/// The longest time to wait for an answer.
pub const MAX_TIMEOUT_SECS: u64 = 2 * 60 * 60;

/// The shortest time to wait for an answer.
pub const MIN_TIMEOUT_SECS: u64 = 30;

/// The most choices that a question can have.
pub const MAX_CHOICES: usize = 8;

/// The fewest choices that a question can have.
pub const MIN_CHOICES: usize = 2;

/// The most characters that a question can have.
pub const MAX_QUESTION_CHARS: usize = 3000;

/// The most characters that a choice can have.
pub const MAX_CHOICE_CHARS: usize = 64;

/// A question that may be asked.
#[derive(Debug)]
pub struct Question {
    pub text: String,
    pub title: Option<String>,
    pub choices: Vec<String>,
    pub timeout_secs: u64,
}

/// A question that may be asked, as plain text.
#[verifier::ext_equal]
pub struct QuestionView {
    pub text: Seq<char>,
    pub title: Option<Seq<char>>,
    pub choices: Seq<Seq<char>>,
    pub timeout_secs: u64,
}

/// The characters of a title.
pub open spec fn title_view(title: Option<String>) -> Option<Seq<char>> {
    match title {
        Some(title) => Some(title@),
        None => None,
    }
}

impl View for Question {
    type V = QuestionView;

    open spec fn view(&self) -> QuestionView {
        QuestionView {
            text: self.text@,
            title: title_view(self.title),
            choices: texts_view(self.choices@),
            timeout_secs: self.timeout_secs,
        }
    }
}

/// Whether a choice fits a button.
pub open spec fn choice_fits(choice: Seq<char>) -> bool {
    1 <= choice.len() <= MAX_CHOICE_CHARS
}

/// Whether every choice fits a button.
pub open spec fn choices_fit(choices: Seq<Seq<char>>) -> bool {
    forall|i: int| 0 <= i < choices.len() ==> choice_fits(#[trigger] choices[i])
}

/// Each of several texts without outer white space.
pub open spec fn each_trimmed(texts: Seq<Seq<char>>) -> Seq<Seq<char>> {
    texts.map_values(|text: Seq<char>| trimmed(text))
}

impl QuestionView {
    /// Whether the question may be asked.
    pub open spec fn wf(self) -> bool {
        &&& 1 <= self.text.len() <= MAX_QUESTION_CHARS
        &&& MIN_CHOICES <= self.choices.len() <= MAX_CHOICES
        &&& choices_fit(self.choices)
        &&& MIN_TIMEOUT_SECS <= self.timeout_secs <= MAX_TIMEOUT_SECS
    }
}

/// A question may be asked exactly if its text has 1 to 3000 characters, it has two to eight
/// choices of 1 to 64 characters each, and it waits for 30 seconds to two hours.
pub proof fn what_may_be_asked(question: QuestionView)
    ensures
        question.wf() <==> {
            &&& 1 <= question.text.len() <= 3000
            &&& 2 <= question.choices.len() <= 8
            &&& forall|i: int|
                0 <= i < question.choices.len() ==> 1 <= (#[trigger] question.choices[i]).len()
                    <= 64
            &&& 30 <= question.timeout_secs <= 7200
        },
{
    assert(choices_fit(question.choices) <==> forall|i: int|
        0 <= i < question.choices.len() ==> 1 <= (#[trigger] question.choices[i]).len() <= 64) by {
        if choices_fit(question.choices) {
            assert forall|i: int| 0 <= i < question.choices.len() implies 1 <= (
            #[trigger] question.choices[i]).len() <= 64 by {
                assert(choice_fits(question.choices[i]));
            }
        }
    }
}

/// The question that a caller may ask, or the first thing that speaks against it.
pub open spec fn checked_question(
    question: Seq<char>,
    choices: Seq<Seq<char>>,
    timeout_secs: u64,
    title: Option<Seq<char>>,
) -> Result<QuestionView, AskError> {
    let text = trimmed(question);
    if text.len() == 0 {
        Err(AskError::EmptyQuestion)
    } else if text.len() > MAX_QUESTION_CHARS {
        Err(AskError::LongQuestion)
    } else if !(MIN_CHOICES <= choices.len() <= MAX_CHOICES) {
        Err(AskError::ChoiceCount)
    } else if !(MIN_TIMEOUT_SECS <= timeout_secs <= MAX_TIMEOUT_SECS) {
        Err(AskError::Timeout)
    } else if !choices_fit(each_trimmed(choices)) {
        Err(AskError::ChoiceLength)
    } else {
        Ok(QuestionView { text, title, choices: each_trimmed(choices), timeout_secs })
    }
}

/// A question is accepted exactly if what is left of it and of its choices without outer
/// white space may be asked.
pub proof fn only_askable_questions_are_accepted(
    question: Seq<char>,
    choices: Seq<Seq<char>>,
    timeout_secs: u64,
    title: Option<Seq<char>>,
)
    ensures
        checked_question(question, choices, timeout_secs, title) is Ok <==> (QuestionView {
            text: trimmed(question),
            title,
            choices: each_trimmed(choices),
            timeout_secs,
        }).wf(),
{
}

/// An accepted question is the one that was asked: the caller's title and time to wait, their
/// text without outer white space, and their choices, in order, each without outer white space.
pub proof fn an_accepted_question_is_the_one_asked(
    question: Seq<char>,
    choices: Seq<Seq<char>>,
    timeout_secs: u64,
    title: Option<Seq<char>>,
)
    requires
        checked_question(question, choices, timeout_secs, title) is Ok,
    ensures
        ({
            let accepted = checked_question(question, choices, timeout_secs, title)->Ok_0;
            &&& accepted.timeout_secs == timeout_secs
            &&& accepted.title == title
            &&& accepted.text == trimmed(question)
            &&& accepted.choices.len() == choices.len()
            &&& forall|i: int|
                0 <= i < choices.len() ==> #[trigger] accepted.choices[i] == trimmed(choices[i])
        }),
{
}

/// Whether some choice is empty or longer than 64 characters, without outer white space.
pub open spec fn some_choice_is_unfit(choices: Seq<Seq<char>>) -> bool {
    exists|i: int|
        0 <= i < choices.len() && !(1 <= trimmed(#[trigger] choices[i]).len() <= 64)
}

/// What is asked is refused for the first of its faults, in this order: an empty text, one of
/// more than 3000 characters, fewer than two choices or more than eight, a wait of less than 30
/// seconds or more than two hours, a choice that is empty or longer than 64 characters. Without
/// a fault it is not refused.
pub proof fn a_question_is_refused_for_its_first_fault(
    question: Seq<char>,
    choices: Seq<Seq<char>>,
    timeout_secs: u64,
    title: Option<Seq<char>>,
)
    ensures
        ({
            let checked = checked_question(question, choices, timeout_secs, title);
            let empty = trimmed(question).len() < 1;
            let long = trimmed(question).len() > 3000;
            let count = choices.len() < 2 || choices.len() > 8;
            let wait = timeout_secs < 30 || timeout_secs > 7200;
            let unfit = some_choice_is_unfit(choices);
            &&& empty <==> checked == Err::<QuestionView, AskError>(AskError::EmptyQuestion)
            &&& long <==> checked == Err::<QuestionView, AskError>(AskError::LongQuestion)
            &&& !empty && !long && count <==> checked == Err::<QuestionView, AskError>(
                AskError::ChoiceCount,
            )
            &&& !empty && !long && !count && wait <==> checked == Err::<QuestionView, AskError>(
                AskError::Timeout,
            )
            &&& !empty && !long && !count && !wait && unfit <==> checked == Err::<
                QuestionView,
                AskError,
            >(AskError::ChoiceLength)
            &&& !empty && !long && !count && !wait && !unfit <==> checked is Ok
        }),
{
    if choices_fit(each_trimmed(choices)) {
        assert forall|i: int| 0 <= i < choices.len() implies 1 <= trimmed(
            #[trigger] choices[i],
        ).len() <= 64 by {
            assert(choice_fits(each_trimmed(choices)[i]));
        }
    } else {
        let i = choose|i: int|
            0 <= i < each_trimmed(choices).len() && !choice_fits(#[trigger] each_trimmed(choices)[i]);
        assert(!(1 <= trimmed(choices[i]).len() <= 64));
    }
}

/// A question is the text, the title, the choices and the time to wait that it has.
pub proof fn questions_are_read_as_they_are(question: Question)
    ensures
        question@.text == question.text@,
        match question.title {
            Some(title) => question@.title == Some(title@),
            None => question@.title is None,
        },
        question@.choices.len() == question.choices@.len(),
        forall|i: int|
            0 <= i < question.choices@.len() ==> #[trigger] question@.choices[i]
                == question.choices@[i]@,
        question@.timeout_secs == question.timeout_secs,
{
}

/// The title that a caller gives is kept whole, and a missing one is not made up.
pub proof fn titles_are_kept(title: Option<String>)
    ensures
        match title {
            Some(title) => title_view(Some(title)) == Some(title@),
            None => title_view(title) is None,
        },
{
}

fn trim_each(choices: &[String]) -> (trimmed_choices: Vec<String>)
    ensures
        texts_view(trimmed_choices@) == each_trimmed(texts_view(choices@)),
{
    let mut kept: Vec<String> = Vec::new();
    let mut i: usize = 0;
    while i < choices.len()
        invariant
            i <= choices.len(),
            kept.len() == i,
            forall|k: int| 0 <= k < i ==> (#[trigger] kept@[k])@ == trimmed(choices@[k]@),
        decreases choices.len() - i,
    {
        kept.push(trim(choices[i].as_str()).to_owned());
        i = i + 1;
    }
    assert(texts_view(kept@) =~= each_trimmed(texts_view(choices@)));
    kept
}

fn all_choices_fit(choices: &Vec<String>) -> (fit: bool)
    ensures
        fit == choices_fit(texts_view(choices@)),
{
    let mut i: usize = 0;
    while i < choices.len()
        invariant
            i <= choices.len(),
            forall|k: int| 0 <= k < i ==> choice_fits(#[trigger] texts_view(choices@)[k]),
        decreases choices.len() - i,
    {
        let len: usize = choices[i].as_str().unicode_len();
        if len < 1 || len > MAX_CHOICE_CHARS {
            assert(!choice_fits(texts_view(choices@)[i as int]));
            return false;
        }
        i = i + 1;
    }
    true
}

impl Question {
    /// The question that the caller may ask, or the first thing that speaks against it.
    pub fn check(
        question: &str,
        choices: &[String],
        timeout_secs: u64,
        title: Option<String>,
    ) -> (checked: Result<Question, AskError>)
        ensures
            match checked {
                Ok(accepted) => checked_question(
                    question@,
                    texts_view(choices@),
                    timeout_secs,
                    title_view(title),
                ) == Ok::<QuestionView, AskError>(accepted@),
                Err(error) => checked_question(
                    question@,
                    texts_view(choices@),
                    timeout_secs,
                    title_view(title),
                ) == Err::<QuestionView, AskError>(error),
            },
            checked matches Ok(accepted) ==> accepted@.wf(),
    {
        let text: &str = trim(question);
        let len: usize = text.unicode_len();
        if len == 0 {
            return Err(AskError::EmptyQuestion);
        }
        if len > MAX_QUESTION_CHARS {
            return Err(AskError::LongQuestion);
        }
        if choices.len() < MIN_CHOICES || choices.len() > MAX_CHOICES {
            return Err(AskError::ChoiceCount);
        }
        if timeout_secs < MIN_TIMEOUT_SECS || timeout_secs > MAX_TIMEOUT_SECS {
            return Err(AskError::Timeout);
        }
        let choices: Vec<String> = trim_each(choices);
        if !all_choices_fit(&choices) {
            return Err(AskError::ChoiceLength);
        }
        Ok(Question { text: text.to_owned(), title, choices, timeout_secs })
    }

    /// The title of the conversation, if there is one.
    pub fn title(&self) -> (title: Option<&str>)
        ensures
            optional_view(title) == self@.title,
    {
        match &self.title {
            Some(title) => Some(title.as_str()),
            None => None,
        }
    }
}

} // verus!
