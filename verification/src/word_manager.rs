//! The reading of words that the user enters, and what is done with them.

use vstd::prelude::*;
use vstd::string::*;
use crate::merge::{copy_word, records_of, Change, UpsertAction};
use crate::model::{
    fresh_record,
    listed,
    meaning_entries,
    meaning_map,
    united,
    Record,
    Word,
    DAY_SECS,
};
use crate::revisit_planner::MIN_PERIOD_DAYS;
use crate::text::{
    chars_of,
    first_sep,
    lemma_first_sep_at,
    lowercase_of,
    string_of,
    trim,
    trimmed,
};

verus! {

/// What stands between a word and its meanings in a line.
pub const NAME_SEP: char = '=';

/// What a line of input is.
#[derive(Debug, Clone, PartialEq, Eq)]
pub enum TakenLine {
    /// The line is empty, or the input is over: the listing ends.
    End,
    /// The line has no `=`.
    Unrecognized,
    /// The name or the meanings are empty.
    Empty,
    /// The line gives a word.
    Taken(Word),
}

/// A line of input as a value of mathematics.
pub enum Line {
    End,
    Unrecognized,
    Empty,
    Taken(Record),
}

impl View for TakenLine {
    type V = Line;

    open spec fn view(&self) -> Line {
        match self {
            TakenLine::End => Line::End,
            TakenLine::Unrecognized => Line::Unrecognized,
            TakenLine::Empty => Line::Empty,
            TakenLine::Taken(word) => Line::Taken(word@),
        }
    }
}

/// What a line of input is, read at `now`: a word's name, `=`, and its
/// meanings. The first `=` parts the two.
pub open spec fn line_read(line: Option<Seq<char>>, now: i64) -> Line {
    match line {
        None => Line::End,
        Some(text) => {
            let entry = trimmed(text);
            let at = first_sep(entry, NAME_SEP);
            if entry.len() == 0 {
                Line::End
            } else if !(0 <= at < entry.len()) {
                Line::Unrecognized
            } else if trimmed(entry.take(at)).len() == 0 || trimmed(entry.skip(at + 1)).len() == 0
                || meaning_map(entry.skip(at + 1)).len() == 0 {
                Line::Empty
            } else {
                Line::Taken(fresh_record(entry.take(at), entry.skip(at + 1), now))
            }
        },
    }
}

/// Whether an answer says yes: `y` or `yes`, whatever its case and the white
/// space around it.
pub open spec fn says_yes(answer: Seq<char>) -> bool {
    lowercase_of(trimmed(answer)) == "y"@ || lowercase_of(trimmed(answer)) == "yes"@
}

/// What is done with a word that the user entered, given the record that
/// the store holds under its name: a new word is inserted, and a known one
/// gets the meanings that it lacks.
pub open spec fn taken(existing: Option<Record>, word: Record) -> Change {
    match existing {
        None => Change::Insert(word),
        Some(known) => Change::Update(
            Record { meanings: listed(united(known.meanings, word.meanings)), ..known },
        ),
    }
}

/// Reads one line of input at `now`. `None` stands for the end of the
/// input.
pub fn read_one_word(line: Option<&str>, now: i64) -> (read: TakenLine)
    requires
        now + MIN_PERIOD_DAYS * DAY_SECS <= i64::MAX,
    ensures
        read@ == line_read(
            match line {
                Some(l) => Some(l@),
                None => None,
            },
            now,
        ),
{
    let text = match line {
        Some(text) => text,
        None => return TakenLine::End,
    };
    let entry = trim(&chars_of(text));
    let n = entry.len();
    if n == 0 {
        return TakenLine::End;
    }
    let mut at: usize = 0;
    while at < n && entry[at] != NAME_SEP
        invariant
            0 <= at <= n,
            n == entry@.len(),
            forall|k: int| 0 <= k < at ==> entry@[k] != NAME_SEP,
        decreases n - at,
    {
        at += 1;
    }
    proof {
        lemma_first_sep_at(entry@, NAME_SEP, at as int);
    }
    if at >= n {
        return TakenLine::Unrecognized;
    }
    let mut name: Vec<char> = Vec::new();
    let mut i: usize = 0;
    while i < at
        invariant
            0 <= i <= at < n,
            n == entry@.len(),
            name@ == entry@.take(i as int),
        decreases at - i,
    {
        name.push(entry[i]);
        assert(entry@.take(i as int + 1) =~= entry@.take(i as int).push(entry@[i as int]));
        i += 1;
    }
    let mut meanings: Vec<char> = Vec::new();
    let mut j: usize = at + 1;
    assert(entry@.subrange(at as int + 1, j as int) =~= Seq::<char>::empty());
    while j < n
        invariant
            at < j <= n,
            n == entry@.len(),
            meanings@ == entry@.subrange(at as int + 1, j as int),
        decreases n - j,
    {
        meanings.push(entry[j]);
        assert(entry@.subrange(at as int + 1, j as int + 1) =~= entry@.subrange(
            at as int + 1,
            j as int,
        ).push(entry@[j as int]));
        j += 1;
    }
    assert(meanings@ =~= entry@.skip(at as int + 1));
    if trim(&name).len() == 0 || trim(&meanings).len() == 0 {
        return TakenLine::Empty;
    }
    let name = string_of(&name);
    let meanings = string_of(&meanings);
    let word = Word::from_name_and_meanings(name.as_str(), meanings.as_str(), now);
    if meaning_entries(meanings.as_str()).len() == 0 {
        return TakenLine::Empty;
    }
    TakenLine::Taken(word)
}

/// Decides what is done with a word that the user entered, given the
/// record that the store holds under its name, if there is one.
pub fn take_word(existing: Option<&Word>, word: &Word) -> (action: UpsertAction)
    ensures
        action@ == taken(
            match existing {
                Some(w) => Some(w@),
                None => None,
            },
            word@,
        ),
{
    match existing {
        None => UpsertAction::Insert(copy_word(word)),
        Some(known) => {
            let mut changed = copy_word(known);
            changed.merge_meanings(word.meanings.as_str());
            UpsertAction::Update(changed)
        },
    }
}

/// Whether an answer to a question says yes.
pub fn is_yes(answer: &str) -> (yes: bool)
    ensures
        yes == says_yes(answer@),
{
    let word = string_of(&trim(&chars_of(answer))).as_str().to_lowercase();
    word == String::from_str("y") || word == String::from_str("yes")
}

/// The words that pairs of a name and meanings give, imported at `now`.
pub open spec fn imported(pairs: Seq<(String, String)>, now: i64) -> Seq<Record> {
    pairs.map_values(|p: (String, String)| fresh_record(p.0@, p.1@, now))
}

/// Makes words of the pairs of a name and meanings that an import file
/// holds.
pub fn import_words(pairs: &Vec<(String, String)>, now: i64) -> (words: Vec<Word>)
    requires
        now + MIN_PERIOD_DAYS * DAY_SECS <= i64::MAX,
    ensures
        records_of(words@) == imported(pairs@, now),
{
    let mut words: Vec<Word> = Vec::new();
    let mut i: usize = 0;
    while i < pairs.len()
        invariant
            0 <= i <= pairs@.len(),
            now + MIN_PERIOD_DAYS * DAY_SECS <= i64::MAX,
            records_of(words@) == imported(pairs@.take(i as int), now),
        decreases pairs@.len() - i,
    {
        let word = Word::from_name_and_meanings(pairs[i].0.as_str(), pairs[i].1.as_str(), now);
        proof {
            assert(pairs@.take(i as int + 1) =~= pairs@.take(i as int).push(pairs@[i as int]));
            assert(records_of(words@.push(word)) =~= records_of(
                words@,
            ).push(word@));
            assert(imported(pairs@.take(i as int + 1), now) =~= imported(
                pairs@.take(i as int),
                now,
            ).push(fresh_record(pairs@[i as int].0@, pairs@[i as int].1@, now)));
        }
        words.push(word);
        i += 1;
    }
    assert(pairs@.take(pairs@.len() as int) =~= pairs@);
    words
}

/// The pairs of a name and meanings that an export file holds.
pub fn export_words(words: &Vec<Word>) -> (pairs: Vec<(String, String)>)
    ensures
        pairs@.len() == words@.len(),
        forall|i: int|
            0 <= i < words@.len() ==> (#[trigger] pairs@[i]).0@ == words@[i].name@ && pairs@[i].1@
                == words@[i].meanings@,
{
    let mut pairs: Vec<(String, String)> = Vec::new();
    let mut i: usize = 0;
    while i < words.len()
        invariant
            0 <= i <= words@.len(),
            pairs@.len() == i,
            forall|k: int|
                0 <= k < i ==> (#[trigger] pairs@[k]).0@ == words@[k].name@ && pairs@[k].1@
                    == words@[k].meanings@,
        decreases words@.len() - i,
    {
        pairs.push((words[i].name.clone(), words[i].meanings.clone()));
        i += 1;
    }
    pairs
}

} // verus!
