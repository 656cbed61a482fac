use wordmem::model::Word;
use wordmem::word_visitor::{can_test, test_one_word, Quiz, QuizAction, QuizState};

fn word(period_days: u16) -> Word {
    Word {
        id: Some(3),
        name: "Run".to_string(),
        meanings: "jog;sprint".to_string(),
        period_days,
        last_visit: 10,
        next_visit: 20,
    }
}

fn after(period_days: u16, now: i64) -> Word {
    Word { period_days, last_visit: now, next_visit: now + period_days as i64 * 86400, ..word(0) }
}

#[test]
fn right_answers_move_the_word_forward() {
    let mut quiz = Quiz::begin(word(4));
    assert_eq!(quiz.state, QuizState::AskingMeanings);
    assert_eq!(test_one_word(&mut quiz, Some(" Sprint; JOG"), 1000), QuizAction::AskName(true));
    assert_eq!(quiz.state, QuizState::AskingName);
    assert_eq!(test_one_word(&mut quiz, Some(" run "), 2000), QuizAction::Store(after(8, 2000)));
    assert_eq!(quiz.state, QuizState::Done);
    assert_eq!(quiz.word, after(8, 2000));
}

#[test]
fn wrong_meanings_move_the_word_back() {
    let mut quiz = Quiz::begin(word(4));
    assert_eq!(test_one_word(&mut quiz, Some("jog"), 1000), QuizAction::AskName(false));
    assert_eq!(test_one_word(&mut quiz, Some("RUN"), 2000), QuizAction::Store(after(2, 2000)));
}

#[test]
fn a_wrong_spelling_is_asked_for_again_and_moves_the_word_back() {
    let mut quiz = Quiz::begin(word(128));
    assert_eq!(test_one_word(&mut quiz, Some("jog;sprint"), 1000), QuizAction::AskName(true));
    assert_eq!(test_one_word(&mut quiz, Some("ran"), 1500), QuizAction::AskNameAgain);
    assert_eq!(quiz.state, QuizState::AskingName);
    assert_eq!(test_one_word(&mut quiz, Some("rum"), 1600), QuizAction::AskNameAgain);
    assert_eq!(test_one_word(&mut quiz, Some("run"), 2000), QuizAction::Store(after(64, 2000)));
}

#[test]
fn the_longest_and_the_shortest_period_stay() {
    let mut quiz = Quiz::begin(word(128));
    test_one_word(&mut quiz, Some("jog;sprint"), 1000);
    assert_eq!(test_one_word(&mut quiz, Some("run"), 2000), QuizAction::Store(after(128, 2000)));
    let mut quiz = Quiz::begin(word(1));
    test_one_word(&mut quiz, Some("no idea"), 1000);
    assert_eq!(test_one_word(&mut quiz, Some("run"), 2000), QuizAction::Store(after(1, 2000)));
}

#[test]
fn an_empty_line_aborts_the_test() {
    for lines in [vec![None], vec![Some("")], vec![Some("jog"), None], vec![Some("jog"), Some("")]] {
        let mut quiz = Quiz::begin(word(4));
        let mut last = QuizAction::AskNameAgain;
        for line in lines {
            last = test_one_word(&mut quiz, line, 1000);
        }
        assert_eq!(last, QuizAction::Abort);
        assert_eq!(quiz.state, QuizState::Done);
        assert_eq!(quiz.word, word(4));
        assert_eq!(test_one_word(&mut quiz, Some("run"), 1000), QuizAction::Abort);
    }
}

#[test]
fn a_line_of_spaces_is_an_answer() {
    let mut quiz = Quiz::begin(word(4));
    assert_eq!(test_one_word(&mut quiz, Some(" "), 1000), QuizAction::AskName(false));
    assert_eq!(test_one_word(&mut quiz, Some(" "), 1000), QuizAction::AskNameAgain);
}

#[test]
fn a_word_can_be_tested_while_its_visits_can_be_reckoned() {
    assert!(can_test(&word(4), 0));
    assert!(can_test(&word(128), i64::MAX - 128 * 86400));
    assert!(!can_test(&word(128), i64::MAX - 128 * 86400 + 1));
    assert!(can_test(&word(64), i64::MAX - 128 * 86400));
    assert!(!can_test(&word(64), i64::MAX - 128 * 86400 + 1));
    assert!(can_test(&word(32767), 0));
    assert!(!can_test(&word(32768), 0));
    assert!(can_test(&word(0), i64::MAX));
    assert!(can_test(&word(4), i64::MIN));
}
