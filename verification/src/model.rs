//! Word records and their meaning sets.
//!
//! The meanings of a word are kept as one text, with `;` between them. Two
//! meanings are the same when they agree after the white space around them
//! is dropped and they are put in lower case; the spelling that was seen
//! first is the one that is kept.

use vstd::prelude::*;
use vstd::string::*;
use crate::revisit_planner::{
    get_init_period_days,
    get_last_period_days,
    get_next_period_days,
    last_period_days,
    next_period_days,
    MIN_PERIOD_DAYS,
};
use crate::text::{
    chars_of,
    join,
    lowercase_of,
    parse_i64,
    parse_u16,
    parsed_i64,
    parsed_u16,
    split,
    split_chars,
    string_of,
    texts_of,
    trim,
    trimmed,
};

verus! {

/// What stands between two meanings.
pub const MEANING_SEP: char = ';';

/// A word with its meanings and its place in the revisit schedule. Instants
/// are whole seconds since the Unix epoch.
#[derive(Debug, Clone, PartialEq, Eq)]
pub struct Word {
    pub id: Option<i64>,
    pub name: String,
    pub meanings: String,
    pub period_days: u16,
    pub last_visit: i64,
    pub next_visit: i64,
}

/// A word record as a value of mathematics.
pub struct Record {
    pub id: Option<i64>,
    pub name: Seq<char>,
    pub meanings: Seq<char>,
    pub period_days: u16,
    pub last_visit: i64,
    pub next_visit: i64,
}

impl View for Word {
    type V = Record;

    open spec fn view(&self) -> Record {
        Record {
            id: self.id,
            name: self.name@,
            meanings: self.meanings@,
            period_days: self.period_days,
            last_visit: self.last_visit,
            next_visit: self.next_visit,
        }
    }
}

/// One meaning: the form it is compared by, and the spelling it is shown in.
#[derive(Debug, Clone, PartialEq, Eq)]
pub struct MeaningEntry {
    pub key: String,
    pub shown: String,
}

/// A meaning as a value of mathematics.
pub struct Meaning {
    pub key: Seq<char>,
    pub shown: Seq<char>,
}

impl View for MeaningEntry {
    type V = Meaning;

    open spec fn view(&self) -> Meaning {
        Meaning { key: self.key@, shown: self.shown@ }
    }
}

/// The meanings that a vector of entries holds.
pub open spec fn entries_of(entries: Seq<MeaningEntry>) -> Seq<Meaning> {
    entries.map_values(|e: MeaningEntry| e@)
}

/// Whether one of the meanings is compared by `key`.
pub open spec fn has_key(meanings: Seq<Meaning>, key: Seq<char>) -> bool {
    exists|i: int| 0 <= i < meanings.len() && (#[trigger] meanings[i]).key == key
}

/// The meanings with one more piece of text taken in: the piece is trimmed,
/// and left out where nothing remains of it or where its meaning is there
/// already.
pub open spec fn add_meaning(meanings: Seq<Meaning>, piece: Seq<char>) -> Seq<Meaning> {
    let shown = trimmed(piece);
    let key = lowercase_of(shown);
    if shown.len() == 0 || has_key(meanings, key) {
        meanings
    } else {
        meanings.push(Meaning { key, shown })
    }
}

/// The meanings with pieces of text taken in, one after another.
pub open spec fn collect(meanings: Seq<Meaning>, pieces: Seq<Seq<char>>) -> Seq<Meaning>
    decreases pieces.len(),
{
    if pieces.len() == 0 {
        meanings
    } else {
        collect(add_meaning(meanings, pieces.first()), pieces.drop_first())
    }
}

/// The meanings that a text lists, in the order in which they are first
/// seen.
pub open spec fn meaning_map(text: Seq<char>) -> Seq<Meaning> {
    collect(Seq::empty(), split(text, MEANING_SEP))
}

/// The spellings of the meanings.
pub open spec fn shown_of(meanings: Seq<Meaning>) -> Seq<Seq<char>> {
    meanings.map_values(|m: Meaning| m.shown)
}

/// The forms that the meanings are compared by.
pub open spec fn keys_of(meanings: Seq<Meaning>) -> Seq<Seq<char>> {
    meanings.map_values(|m: Meaning| m.key)
}

/// The text that lists the meanings.
pub open spec fn listed(meanings: Seq<Meaning>) -> Seq<char> {
    join(shown_of(meanings), MEANING_SEP)
}

/// A text of meanings with each meaning once, trimmed.
pub open spec fn normalized(text: Seq<char>) -> Seq<char> {
    listed(meaning_map(text))
}

/// The meanings of `mine`, then those of `other` that `mine` lacks.
pub open spec fn united(mine: Seq<char>, other: Seq<char>) -> Seq<Meaning> {
    collect(meaning_map(mine), split(other, MEANING_SEP))
}

/// Whether `answer` lists the meanings of `mine`, all of them and no other,
/// and at least one.
pub open spec fn same_meanings(mine: Seq<char>, answer: Seq<char>) -> bool {
    meaning_map(answer).len() > 0 && keys_of(meaning_map(answer)).to_set() == keys_of(
        meaning_map(mine),
    ).to_set()
}

/// The seconds of a day.
pub const DAY_SECS: i64 = 86400;

/// Why a row is no word.
#[derive(Debug, Clone, Copy, PartialEq, Eq, Structural)]
pub enum RowError {
    /// A column is not there, or holds no value.
    Missing,
    /// A column that holds a number cannot be read as one.
    Malformed,
}

/// A column of a row: its name, and its value where it has one.
pub type Column = (String, Option<String>);

/// A column as a value of mathematics.
pub type Cell = (Seq<char>, Option<Seq<char>>);

/// The cells that a row of columns holds.
pub open spec fn cells_of(row: Seq<Column>) -> Seq<Cell> {
    row.map_values(
        |c: Column|
            (
                c.0@,
                match c.1 {
                    Some(v) => Some(v@),
                    None => None,
                },
            ),
    )
}

/// The value of the column of the given name: that of the last one, where
/// several have the name. `None` where no column has it, or the last one has
/// no value.
pub open spec fn column(row: Seq<Cell>, name: Seq<char>) -> Option<Seq<char>>
    decreases row.len(),
{
    if row.len() == 0 {
        None
    } else if row.last().0 == name {
        row.last().1
    } else {
        column(row.drop_last(), name)
    }
}

/// A column that holds an `i64`.
pub open spec fn number_in(row: Seq<Cell>, name: Seq<char>) -> Result<i64, RowError> {
    match column(row, name) {
        Some(text) => match parsed_i64(text) {
            Some(number) => Ok(number),
            None => Err(RowError::Malformed),
        },
        None => Err(RowError::Missing),
    }
}

/// A column that holds a `u16`.
pub open spec fn period_in(row: Seq<Cell>, name: Seq<char>) -> Result<u16, RowError> {
    match column(row, name) {
        Some(text) => match parsed_u16(text) {
            Some(number) => Ok(number),
            None => Err(RowError::Malformed),
        },
        None => Err(RowError::Missing),
    }
}

/// The word that a row holds. The columns are read in the order of the
/// table, and the first that fails says why the row is no word.
pub open spec fn row_word(row: Seq<Cell>) -> Result<Record, RowError> {
    match number_in(row, "id"@) {
        Err(e) => Err(e),
        Ok(id) => match column(row, "name"@) {
            None => Err(RowError::Missing),
            Some(name) => match column(row, "meanings"@) {
                None => Err(RowError::Missing),
                Some(meanings) => match period_in(row, "period_days"@) {
                    Err(e) => Err(e),
                    Ok(period_days) => match number_in(row, "last_visit"@) {
                        Err(e) => Err(e),
                        Ok(last_visit) => match number_in(row, "next_visit"@) {
                            Err(e) => Err(e),
                            Ok(next_visit) => Ok(
                                Record {
                                    id: Some(id),
                                    name,
                                    meanings,
                                    period_days,
                                    last_visit,
                                    next_visit,
                                },
                            ),
                        },
                    },
                },
            },
        },
    }
}

/// The value of the column of the given name.
pub fn get_val(row: &Vec<Column>, key: &str) -> (value: Option<String>)
    ensures
        match value {
            Some(v) => column(cells_of(row@), key@) == Some(v@),
            None => column(cells_of(row@), key@) is None,
        },
{
    let ghost cells = cells_of(row@);
    let name = String::from_str(key);
    let mut i: usize = row.len();
    assert(cells.take(i as int) =~= cells);
    while i > 0
        invariant
            0 <= i <= row@.len(),
            cells == cells_of(row@),
            name@ == key@,
            column(cells, key@) == column(cells.take(i as int), key@),
        decreases i,
    {
        i -= 1;
        proof {
            assert(cells.take(i as int + 1).last() == cells[i as int]);
            assert(cells.take(i as int + 1).drop_last() =~= cells.take(i as int));
        }
        if row[i].0 == name {
            return match &row[i].1 {
                Some(v) => Some(v.clone()),
                None => None,
            };
        }
    }
    None
}

/// A column that holds an `i64`.
pub fn get_number(row: &Vec<Column>, key: &str) -> (number: Result<i64, RowError>)
    ensures
        number == number_in(cells_of(row@), key@),
{
    match get_val(row, key) {
        Some(text) => match parse_i64(text.as_str()) {
            Some(number) => Ok(number),
            None => Err(RowError::Malformed),
        },
        None => Err(RowError::Missing),
    }
}

/// A column that holds a `u16`.
pub fn get_period(row: &Vec<Column>, key: &str) -> (number: Result<u16, RowError>)
    ensures
        number == period_in(cells_of(row@), key@),
{
    match get_val(row, key) {
        Some(text) => match parse_u16(text.as_str()) {
            Some(number) => Ok(number),
            None => Err(RowError::Malformed),
        },
        None => Err(RowError::Missing),
    }
}

/// A word as it is when it was just taken: a name without white space
/// around it, meanings each once, and the first visit one period after
/// `now`.
pub open spec fn fresh_record(name: Seq<char>, meanings: Seq<char>, now: i64) -> Record {
    Record {
        id: None,
        name: trimmed(name),
        meanings: normalized(meanings),
        period_days: MIN_PERIOD_DAYS,
        last_visit: now,
        next_visit: (now + MIN_PERIOD_DAYS * DAY_SECS) as i64,
    }
}

/// A word after a test at `now`: the period steps forward after a right
/// answer and back after a wrong one, and the next visit is one period
/// later.
pub open spec fn revisited(word: Record, is_answer_correct: bool, now: i64) -> Record {
    let period = if is_answer_correct {
        next_period_days(word.period_days as int)
    } else {
        last_period_days(word.period_days as int)
    };
    Record {
        period_days: period as u16,
        last_visit: now,
        next_visit: (now + period * DAY_SECS) as i64,
        ..word
    }
}

/// Whether one of the entries is compared by `key`.
pub fn contains_key(entries: &Vec<MeaningEntry>, key: &String) -> (found: bool)
    ensures
        found == has_key(entries_of(entries@), key@),
{
    let mut i: usize = 0;
    while i < entries.len()
        invariant
            0 <= i <= entries@.len(),
            forall|k: int| 0 <= k < i ==> (#[trigger] entries_of(entries@)[k]).key != key@,
        decreases entries@.len() - i,
    {
        if entries[i].key == *key {
            assert(entries_of(entries@)[i as int].key == key@);
            return true;
        }
        i += 1;
    }
    false
}

/// Takes one piece of text into the entries.
pub fn add_piece(entries: &mut Vec<MeaningEntry>, piece: &Vec<char>)
    ensures
        entries_of(final(entries)@) == add_meaning(entries_of(old(entries)@), piece@),
{
    let shown = trim(piece);
    if shown.len() == 0 {
        return ;
    }
    let shown = string_of(&shown);
    let key = shown.as_str().to_lowercase();
    if contains_key(entries, &key) {
        return ;
    }
    let ghost before = entries_of(entries@);
    let entry = MeaningEntry { key, shown };
    entries.push(entry);
    assert(entries_of(entries@) =~= before.push(entry@));
}

/// Takes the meanings that a text lists into the entries.
pub fn collect_into(entries: &mut Vec<MeaningEntry>, text: &str)
    ensures
        entries_of(final(entries)@) == collect(
            entries_of(old(entries)@),
            split(text@, MEANING_SEP),
        ),
{
    let chars = chars_of(text);
    let pieces = split_chars(&chars, MEANING_SEP);
    let ghost all = texts_of(pieces@);
    let ghost start = entries_of(entries@);
    let mut i: usize = 0;
    assert(all.skip(0) =~= all);
    while i < pieces.len()
        invariant
            0 <= i <= pieces@.len(),
            all == texts_of(pieces@),
            collect(start, all) == collect(entries_of(entries@), all.skip(i as int)),
        decreases pieces@.len() - i,
    {
        proof {
            assert(all.skip(i as int).first() == pieces@[i as int]@);
            assert(all.skip(i as int).drop_first() =~= all.skip(i as int + 1));
        }
        add_piece(entries, &pieces[i]);
        i += 1;
    }
}

/// The meanings that a text lists.
pub fn meaning_entries(text: &str) -> (entries: Vec<MeaningEntry>)
    ensures
        entries_of(entries@) == meaning_map(text@),
{
    let mut entries: Vec<MeaningEntry> = Vec::new();
    assert(entries_of(entries@) =~= Seq::<Meaning>::empty());
    collect_into(&mut entries, text);
    entries
}

/// The text that lists the entries.
pub fn list_entries(entries: &Vec<MeaningEntry>) -> (text: String)
    ensures
        text@ == listed(entries_of(entries@)),
{
    let ghost all = shown_of(entries_of(entries@));
    let n = entries.len();
    let mut text = String::new();
    let mut i: usize = n;
    proof {
        reveal_strlit(";");
        assert(";"@ =~= seq![MEANING_SEP]);
        assert(all.skip(n as int) =~= Seq::<Seq<char>>::empty());
    }
    while i > 0
        invariant
            0 <= i <= n,
            n == entries@.len(),
            all == shown_of(entries_of(entries@)),
            ";"@ == seq![MEANING_SEP],
            text@ == join(all.skip(i as int), MEANING_SEP),
        decreases i,
    {
        i -= 1;
        proof {
            let rest = all.skip(i as int);
            assert(rest.first() == entries@[i as int].shown@);
            assert(rest.drop_first() =~= all.skip(i as int + 1));
        }
        let mut longer = entries[i].shown.clone();
        if i + 1 < n {
            longer.append(";");
        }
        longer.append(text.as_str());
        text = longer;
    }
    proof {
        assert(all.skip(0) =~= all);
    }
    text
}

impl Word {
    /// Reads a word from a row of the table of words.
    pub fn from_sqlite_pairs(pairs: &Vec<Column>) -> (word: Result<Word, RowError>)
        ensures
            match word {
                Ok(w) => row_word(cells_of(pairs@)) == Ok::<Record, RowError>(w@),
                Err(e) => row_word(cells_of(pairs@)) == Err::<Record, RowError>(e),
            },
    {
        let id = match get_number(pairs, "id") {
            Ok(id) => id,
            Err(e) => return Err(e),
        };
        let name = match get_val(pairs, "name") {
            Some(name) => name,
            None => return Err(RowError::Missing),
        };
        let meanings = match get_val(pairs, "meanings") {
            Some(meanings) => meanings,
            None => return Err(RowError::Missing),
        };
        let period_days = match get_period(pairs, "period_days") {
            Ok(period_days) => period_days,
            Err(e) => return Err(e),
        };
        let last_visit = match get_number(pairs, "last_visit") {
            Ok(last_visit) => last_visit,
            Err(e) => return Err(e),
        };
        let next_visit = match get_number(pairs, "next_visit") {
            Ok(next_visit) => next_visit,
            Err(e) => return Err(e),
        };
        Ok(Word { id: Some(id), name, meanings, period_days, last_visit, next_visit })
    }

    /// A word that was just taken, at `now`.
    pub fn from_name_and_meanings(name: &str, meanings: &str, now: i64) -> (word: Word)
        requires
            now + MIN_PERIOD_DAYS * DAY_SECS <= i64::MAX,
        ensures
            word@ == fresh_record(name@, meanings@, now),
    {
        let period_days = get_init_period_days();
        Word {
            id: None,
            name: string_of(&trim(&chars_of(name))),
            meanings: Word::norm_meanings(meanings),
            period_days,
            last_visit: now,
            next_visit: now + (period_days as i64) * DAY_SECS,
        }
    }

    /// Moves the word in the schedule after a test at `now`.
    pub fn revisit(&mut self, is_answer_correct: bool, now: i64)
        requires
            next_period_days(old(self).period_days as int) <= u16::MAX,
            now + next_period_days(old(self).period_days as int) * DAY_SECS <= i64::MAX,
            now + last_period_days(old(self).period_days as int) * DAY_SECS <= i64::MAX,
        ensures
            final(self)@ == revisited(old(self)@, is_answer_correct, now),
    {
        let period_days = if is_answer_correct {
            get_next_period_days(self.period_days)
        } else {
            get_last_period_days(self.period_days)
        };
        self.period_days = period_days;
        self.last_visit = now;
        self.next_visit = now + (period_days as i64) * DAY_SECS;
    }

    /// Whether `answer` spells the word's name, whatever its case and the
    /// white space around it.
    pub fn is_named(&self, answer: &str) -> (same: bool)
        ensures
            same == (lowercase_of(trimmed(answer@)) == lowercase_of(self.name@)),
    {
        let given = string_of(&trim(&chars_of(answer))).as_str().to_lowercase();
        let mine = self.name.as_str().to_lowercase();
        given == mine
    }

    /// Puts the meanings of `answer` in the place of the word's own, each
    /// once. Nothing changes where the answer lists no meaning, and the
    /// result says whether anything was put in.
    pub fn change_meanings(&mut self, answer: &str) -> (changed: bool)
        ensures
            changed == (meaning_map(answer@).len() > 0),
            final(self)@ == if changed {
                Record { meanings: normalized(answer@), ..old(self)@ }
            } else {
                old(self)@
            },
    {
        let entries = meaning_entries(answer);
        if entries.len() == 0 {
            return false;
        }
        self.meanings = list_entries(&entries);
        true
    }

    /// A text of meanings with each meaning once, trimmed.
    pub fn norm_meanings(meanings: &str) -> (text: String)
        ensures
            text@ == normalized(meanings@),
    {
        list_entries(&meaning_entries(meanings))
    }

    /// Adds to this word the meanings of `meanings` that it lacks.
    pub fn merge_meanings(&mut self, meanings: &str)
        ensures
            final(self)@ == (Record { meanings: listed(united(old(self).meanings@, meanings@)), ..old(self)@ }),
    {
        let mut entries = meaning_entries(self.meanings.as_str());
        collect_into(&mut entries, meanings);
        self.meanings = list_entries(&entries);
    }

    /// Whether `meanings` lists the meanings of this word, all of them and
    /// no other.
    pub fn has_meanings(&self, meanings: &str) -> (same: bool)
        ensures
            same == same_meanings(self.meanings@, meanings@),
    {
        let answer = meaning_entries(meanings);
        let mine = meaning_entries(self.meanings.as_str());
        if answer.len() == 0 {
            return false;
        }
        let ghost a = entries_of(answer@);
        let ghost m = entries_of(mine@);
        let mut i: usize = 0;
        while i < answer.len()
            invariant
                0 <= i <= answer@.len(),
                a == entries_of(answer@),
                m == entries_of(mine@),
                a == meaning_map(meanings@),
                m == meaning_map(self.meanings@),
                a.len() > 0,
                forall|k: int| 0 <= k < i ==> has_key(m, (#[trigger] a[k]).key),
            decreases answer@.len() - i,
        {
            if !contains_key(&mine, &answer[i].key) {
                proof {
                    let key = a[i as int].key;
                    assert(keys_of(a)[i as int] == key);
                    assert(keys_of(a).to_set().contains(key));
                    if keys_of(m).to_set().contains(key) {
                        let j = choose|j: int| 0 <= j < keys_of(m).len() && keys_of(m)[j] == key;
                        assert(m[j].key == key);
                    }
                }
                return false;
            }
            i += 1;
        }
        let mut j: usize = 0;
        while j < mine.len()
            invariant
                0 <= j <= mine@.len(),
                a == entries_of(answer@),
                m == entries_of(mine@),
                a == meaning_map(meanings@),
                m == meaning_map(self.meanings@),
                a.len() > 0,
                forall|k: int| 0 <= k < a.len() ==> has_key(m, (#[trigger] a[k]).key),
                forall|k: int| 0 <= k < j ==> has_key(a, (#[trigger] m[k]).key),
            decreases mine@.len() - j,
        {
            if !contains_key(&answer, &mine[j].key) {
                proof {
                    let key = m[j as int].key;
                    assert(keys_of(m)[j as int] == key);
                    assert(keys_of(m).to_set().contains(key));
                    if keys_of(a).to_set().contains(key) {
                        let k = choose|k: int| 0 <= k < keys_of(a).len() && keys_of(a)[k] == key;
                        assert(a[k].key == key);
                    }
                }
                return false;
            }
            j += 1;
        }
        proof {
            assert forall|key: Seq<char>| keys_of(a).to_set().contains(key) == keys_of(
                m,
            ).to_set().contains(key) by {
                if keys_of(a).to_set().contains(key) {
                    let k = choose|k: int| 0 <= k < keys_of(a).len() && keys_of(a)[k] == key;
                    assert(has_key(m, a[k].key));
                    let j = choose|j: int| 0 <= j < m.len() && (#[trigger] m[j]).key == key;
                    assert(keys_of(m)[j] == key);
                }
                if keys_of(m).to_set().contains(key) {
                    let k = choose|k: int| 0 <= k < keys_of(m).len() && keys_of(m)[k] == key;
                    assert(has_key(a, m[k].key));
                    let j = choose|j: int| 0 <= j < a.len() && (#[trigger] a[j]).key == key;
                    assert(keys_of(a)[j] == key);
                }
            }
            assert(keys_of(a).to_set() =~= keys_of(m).to_set());
        }
        true
    }
}

} // verus!
