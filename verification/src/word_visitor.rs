//! The test of one word at the prompt, as a machine that is told what the
//! user entered and says what to show next.
//!
//! The user is asked for the word's meanings, and then for its spelling
//! until it is right. An empty line, or the end of the input, aborts the
//! test. After the test the word moves in the schedule: forward where both
//! answers were right at once, back where one was not.

use vstd::prelude::*;
use crate::merge::copy_word;
use crate::model::{revisited, same_meanings, Record, Word, DAY_SECS};
use crate::revisit_planner::{last_period_days, next_period_days};
use crate::text::{lowercase_of, trimmed};

verus! {

/// What the machine waits for.
#[derive(Debug, Clone, Copy, PartialEq, Eq, Structural)]
pub enum QuizState {
    /// The meanings were asked for.
    AskingMeanings,
    /// The spelling was asked for.
    AskingName,
    /// The test is over.
    Done,
}

/// What the prompt is to do next.
#[derive(Debug, Clone, PartialEq, Eq)]
pub enum QuizAction {
    /// Say whether the meanings were right, show them where they were not,
    /// and ask for the spelling.
    AskName(bool),
    /// Say that the spelling was wrong, and ask for it again.
    AskNameAgain,
    /// Say that the spelling was right, and store the word as it is now.
    Store(Word),
    /// Say that the test was aborted.
    Abort,
}

/// An action of the prompt as a value of mathematics.
pub enum Prompt {
    AskName(bool),
    AskNameAgain,
    Store(Record),
    Abort,
}

impl View for QuizAction {
    type V = Prompt;

    open spec fn view(&self) -> Prompt {
        match self {
            QuizAction::AskName(right) => Prompt::AskName(*right),
            QuizAction::AskNameAgain => Prompt::AskNameAgain,
            QuizAction::Store(word) => Prompt::Store(word@),
            QuizAction::Abort => Prompt::Abort,
        }
    }
}

/// The test of one word: the word, whether every answer was right so far,
/// and what the machine waits for.
#[derive(Debug, Clone, PartialEq, Eq)]
pub struct Quiz {
    pub word: Word,
    pub is_answer_correct: bool,
    pub state: QuizState,
}

/// The test as a value of mathematics.
pub struct Asking {
    pub word: Record,
    pub is_answer_correct: bool,
    pub state: QuizState,
}

impl View for Quiz {
    type V = Asking;

    open spec fn view(&self) -> Asking {
        Asking { word: self.word@, is_answer_correct: self.is_answer_correct, state: self.state }
    }
}

/// Whether a word can be tested at `now`: the instants of its next visit
/// can be reckoned, whichever way the test goes.
pub open spec fn testable(word: Record, now: i64) -> bool {
    &&& next_period_days(word.period_days as int) <= u16::MAX
    &&& now + next_period_days(word.period_days as int) * DAY_SECS <= i64::MAX
    &&& now + last_period_days(word.period_days as int) * DAY_SECS <= i64::MAX
}

impl Asking {
    /// The test is aborted.
    pub open spec fn abort(self) -> (Asking, Prompt) {
        (Asking { state: QuizState::Done, ..self }, Prompt::Abort)
    }

    /// What the machine does with a line that the user entered at `now`;
    /// `None` stands for the end of the input.
    pub open spec fn step(self, line: Option<Seq<char>>, now: i64) -> (Asking, Prompt) {
        match line {
            None => self.abort(),
            Some(answer) => if answer.len() == 0 || self.state == QuizState::Done {
                self.abort()
            } else if self.state == QuizState::AskingMeanings {
                let right = same_meanings(self.word.meanings, answer);
                (
                    Asking {
                        is_answer_correct: self.is_answer_correct && right,
                        state: QuizState::AskingName,
                        ..self
                    },
                    Prompt::AskName(right),
                )
            } else if lowercase_of(trimmed(answer)) == lowercase_of(self.word.name) {
                let word = revisited(self.word, self.is_answer_correct, now);
                (Asking { word, state: QuizState::Done, ..self }, Prompt::Store(word))
            } else {
                (Asking { is_answer_correct: false, ..self }, Prompt::AskNameAgain)
            },
        }
    }
}

impl Quiz {
    /// Starts the test of a word: its meanings are asked for.
    pub fn begin(word: Word) -> (quiz: Quiz)
        ensures
            quiz@ == (Asking {
                word: word@,
                is_answer_correct: true,
                state: QuizState::AskingMeanings,
            }),
    {
        Quiz { word, is_answer_correct: true, state: QuizState::AskingMeanings }
    }

}

/// Takes a line that the user entered at `now` and says what to show next.
/// The test is over when the action is `Store` or `Abort`.
pub fn test_one_word(quiz: &mut Quiz, line: Option<&str>, now: i64) -> (action: QuizAction)
    requires
        testable(old(quiz).word@, now),
    ensures
        (final(quiz)@, action@) == old(quiz)@.step(
            match line {
                Some(l) => Some(l@),
                None => None,
            },
            now,
        ),
{
    let answer = match line {
        Some(answer) => answer,
        None => {
            quiz.state = QuizState::Done;
            return QuizAction::Abort;
        },
    };
    if answer.unicode_len() == 0 || quiz.state == QuizState::Done {
        quiz.state = QuizState::Done;
        return QuizAction::Abort;
    }
    if quiz.state == QuizState::AskingMeanings {
        let right = quiz.word.has_meanings(answer);
        quiz.is_answer_correct = quiz.is_answer_correct && right;
        quiz.state = QuizState::AskingName;
        return QuizAction::AskName(right);
    }
    if quiz.word.is_named(answer) {
        quiz.word.revisit(quiz.is_answer_correct, now);
        quiz.state = QuizState::Done;
        QuizAction::Store(copy_word(&quiz.word))
    } else {
        quiz.is_answer_correct = false;
        QuizAction::AskNameAgain
    }
}

/// Whether a word can be tested at `now`.
pub fn can_test(word: &Word, now: i64) -> (can: bool)
    ensures
        can == testable(word@, now),
{
    let longest: i64 = if word.period_days == 128 {
        128
    } else if word.period_days > u16::MAX / 2 {
        return false;
    } else {
        (word.period_days as i64) * 2
    };
    now <= i64::MAX - longest * DAY_SECS
}

} // verus!
