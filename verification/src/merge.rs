//! The merge of a pulled snapshot into the local store.
//!
//! A remote word that the store does not know is taken as it is. For one
//! that it knows, the meanings that the store lacks are added; the store's
//! own schedule stays.

use vstd::prelude::*;
use vstd::string::*;
use crate::db::DUE_AHEAD_SECS;
use crate::model::{
    collect_into,
    list_entries,
    listed,
    meaning_entries,
    meaning_map,
    united,
    Record,
    Word,
};
use crate::text::{chars_of, lowercase_of, string_of, trim, trimmed};

verus! {

/// The form that a word's name is found by: trimmed, in lower case.
pub open spec fn name_key(name: Seq<char>) -> Seq<char> {
    lowercase_of(trimmed(name))
}

/// Whether `remote` lists a meaning that `local` lacks.
pub open spec fn brings_new(local: Seq<char>, remote: Seq<char>) -> bool {
    united(local, remote).len() > meaning_map(local).len()
}

/// A local record after a remote one was merged into it: the meanings that
/// it lacked are added, and its text of meanings stays as it is where none
/// was. Its schedule stays, unless the visits are to be taken over.
pub open spec fn updated(local: Record, remote: Record, update_visit_info: bool) -> Record {
    Record {
        meanings: if brings_new(local.meanings, remote.meanings) {
            listed(united(local.meanings, remote.meanings))
        } else {
            local.meanings
        },
        last_visit: if update_visit_info {
            remote.last_visit
        } else {
            local.last_visit
        },
        next_visit: if update_visit_info {
            remote.next_visit
        } else {
            local.next_visit
        },
        ..local
    }
}

/// A remote record as it is taken into a store that does not know the word.
pub open spec fn adopted(remote: Record) -> Record {
    Record { id: None, ..remote }
}

/// What is done to the store for one remote word.
#[derive(Debug, Clone, PartialEq, Eq)]
pub enum UpsertAction {
    /// The word is new: this record is inserted.
    Insert(Word),
    /// The word is known: its record is replaced by this one.
    Update(Word),
    /// The word is known and nothing changes.
    Keep,
}

/// An action on the store as a value of mathematics.
pub enum Change {
    Insert(Record),
    Update(Record),
    Keep,
}

impl View for UpsertAction {
    type V = Change;

    open spec fn view(&self) -> Change {
        match self {
            UpsertAction::Insert(word) => Change::Insert(word@),
            UpsertAction::Update(word) => Change::Update(word@),
            UpsertAction::Keep => Change::Keep,
        }
    }
}

/// What is done for a remote word, given the local record of that name.
pub open spec fn planned(existing: Option<Record>, remote: Record, update_visit_info: bool) -> Change {
    match existing {
        None => Change::Insert(adopted(remote)),
        Some(local) => if brings_new(local.meanings, remote.meanings) || update_visit_info {
            Change::Update(updated(local, remote, update_visit_info))
        } else {
            Change::Keep
        },
    }
}

/// The place of the first record whose name has the given key.
pub open spec fn find(records: Seq<Record>, key: Seq<char>) -> Option<int>
    decreases records.len(),
{
    if records.len() == 0 {
        None
    } else {
        match find(records.drop_last(), key) {
            Some(at) => Some(at),
            None => if name_key(records.last().name) == key {
                Some(records.len() - 1)
            } else {
                None
            },
        }
    }
}

/// The records after one remote word was merged into them.
pub open spec fn upserted(records: Seq<Record>, remote: Record, update_visit_info: bool) -> Seq<
    Record,
> {
    match find(records, name_key(remote.name)) {
        None => records.push(adopted(remote)),
        Some(at) => records.update(at, updated(records[at], remote, update_visit_info)),
    }
}

/// The records after remote words were merged into them, one after another.
pub open spec fn merged(records: Seq<Record>, remote: Seq<Record>) -> Seq<Record>
    decreases remote.len(),
{
    if remote.len() == 0 {
        records
    } else {
        merged(upserted(records, remote.first(), false), remote.drop_first())
    }
}

/// `find` gives the first place where the key matches, and `None` where
/// none does.
pub proof fn lemma_find(records: Seq<Record>, key: Seq<char>)
    ensures
        match find(records, key) {
            Some(at) => 0 <= at < records.len() && name_key(records[at].name) == key && forall|
                i: int,
            |
                0 <= i < at ==> name_key((#[trigger] records[i]).name) != key,
            None => forall|i: int|
                0 <= i < records.len() ==> name_key((#[trigger] records[i]).name) != key,
        },
    decreases records.len(),
{
    if records.len() > 0 {
        let earlier = records.drop_last();
        lemma_find(earlier, key);
        assert(forall|i: int| 0 <= i < earlier.len() ==> earlier[i] == records[i]);
    }
}

/// The first place where the key matches is what `find` gives.
pub proof fn lemma_find_at(records: Seq<Record>, key: Seq<char>, at: int)
    requires
        0 <= at < records.len(),
        name_key(records[at].name) == key,
        forall|i: int| 0 <= i < at ==> name_key((#[trigger] records[i]).name) != key,
    ensures
        find(records, key) == Some(at),
{
    lemma_find(records, key);
}

/// Whether a word is due for a test at `now`: its next visit is no more
/// than the time allowed ahead.
pub open spec fn is_due(word: Record, now: i64) -> bool {
    word.next_visit - DUE_AHEAD_SECS <= now
}

/// The place of the word that is due first at `now`: of the due words the
/// one with the earliest next visit, and of several such the first.
pub open spec fn first_due(records: Seq<Record>, now: i64) -> Option<int>
    decreases records.len(),
{
    if records.len() == 0 {
        None
    } else {
        let earlier = first_due(records.drop_last(), now);
        let at = records.len() - 1;
        if is_due(records[at], now) && (earlier is None || records[at].next_visit
            < records[earlier->0].next_visit) {
            Some(at)
        } else {
            earlier
        }
    }
}

/// The local store: its word records, in the order in which they came.
#[derive(Debug, Clone, PartialEq, Eq)]
pub struct Store {
    pub words: Vec<Word>,
}

/// The records that a vector of words holds.
pub open spec fn records_of(words: Seq<Word>) -> Seq<Record> {
    words.map_values(|w: Word| w@)
}

impl View for Store {
    type V = Seq<Record>;

    open spec fn view(&self) -> Seq<Record> {
        records_of(self.words@)
    }
}

/// The form that a word's name is found by.
pub fn key_of_name(name: &str) -> (key: String)
    ensures
        key@ == name_key(name@),
{
    string_of(&trim(&chars_of(name))).as_str().to_lowercase()
}

/// A copy of a word.
pub fn copy_word(word: &Word) -> (copy: Word)
    ensures
        copy@ == word@,
{
    Word {
        id: word.id,
        name: word.name.clone(),
        meanings: word.meanings.clone(),
        period_days: word.period_days,
        last_visit: word.last_visit,
        next_visit: word.next_visit,
    }
}

/// Decides what is done to the store for one remote word, given the local
/// record of that name, if there is one.
pub fn plan_upsert(existing: Option<&Word>, remote: &Word, update_visit_info: bool) -> (action:
    UpsertAction)
    ensures
        action@ == planned(
            match existing {
                Some(w) => Some(w@),
                None => None,
            },
            remote@,
            update_visit_info,
        ),
{
    match existing {
        None => {
            let mut word = copy_word(remote);
            word.id = None;
            UpsertAction::Insert(word)
        },
        Some(local) => {
            let mut entries = meaning_entries(local.meanings.as_str());
            let known = entries.len();
            collect_into(&mut entries, remote.meanings.as_str());
            let grows = entries.len() > known;
            if !grows && !update_visit_info {
                return UpsertAction::Keep;
            }
            let mut word = copy_word(local);
            if grows {
                word.meanings = list_entries(&entries);
            }
            if update_visit_info {
                word.last_visit = remote.last_visit;
                word.next_visit = remote.next_visit;
            }
            UpsertAction::Update(word)
        },
    }
}

impl Store {
    /// A store without words.
    pub fn new() -> (store: Store)
        ensures
            store@ == Seq::<Record>::empty(),
    {
        let store = Store { words: Vec::new() };
        assert(store@ =~= Seq::<Record>::empty());
        store
    }

    /// The place of the word of the given name.
    pub fn get_by_name(&self, name: &str) -> (place: Option<usize>)
        ensures
            match place {
                Some(at) => find(self@, name_key(name@)) == Some(at as int) && at < self.words@.len(),
                None => find(self@, name_key(name@)) is None,
            },
    {
        let key = key_of_name(name);
        let mut i: usize = 0;
        while i < self.words.len()
            invariant
                0 <= i <= self.words@.len(),
                key@ == name_key(name@),
                forall|k: int| 0 <= k < i ==> name_key((#[trigger] self@[k]).name) != key@,
            decreases self.words@.len() - i,
        {
            let candidate = key_of_name(self.words[i].name.as_str());
            if candidate == key {
                proof {
                    assert(self@[i as int] == self.words@[i as int]@);
                    lemma_find_at(self@, key@, i as int);
                }
                return Some(i);
            }
            assert(self@[i as int] == self.words@[i as int]@);
            i += 1;
        }
        proof {
            lemma_find(self@, key@);
        }
        None
    }

    /// The place of the word that is due first at `now`.
    pub fn get_one_word_to_test(&self, now: i64) -> (place: Option<usize>)
        ensures
            match place {
                Some(at) => first_due(self@, now) == Some(at as int) && at < self.words@.len(),
                None => first_due(self@, now) is None,
            },
    {
        let ghost all = self@;
        let mut place: Option<usize> = None;
        let mut i: usize = 0;
        while i < self.words.len()
            invariant
                0 <= i <= self.words@.len(),
                all == self@,
                match place {
                    Some(at) => first_due(all.take(i as int), now) == Some(at as int) && at < i,
                    None => first_due(all.take(i as int), now) is None,
                },
            decreases self.words@.len() - i,
        {
            proof {
                assert(all.take(i as int + 1).drop_last() =~= all.take(i as int));
                assert(all.take(i as int + 1)[i as int] == self.words@[i as int]@);
                if place is Some {
                    assert(all.take(i as int + 1)[place->0 as int] == self.words@[place->0 as int]@);
                }
            }
            let next_visit = self.words[i].next_visit;
            if (next_visit as i128) - (DUE_AHEAD_SECS as i128) <= now as i128 {
                let sooner = match place {
                    Some(at) => next_visit < self.words[at].next_visit,
                    None => true,
                };
                if sooner {
                    place = Some(i);
                }
            }
            i += 1;
        }
        proof {
            assert(all.take(self.words@.len() as int) =~= all);
        }
        place
    }

    /// Merges one remote word into the store, by its name.
    pub fn upsert_by_name(&mut self, word: &Word, update_visit_info: bool)
        ensures
            final(self)@ == upserted(old(self)@, word@, update_visit_info),
    {
        let ghost before = self@;
        match self.get_by_name(word.name.as_str()) {
            None => {
                match plan_upsert(None, word, update_visit_info) {
                    UpsertAction::Insert(taken) => {
                        self.words.push(taken);
                        assert(self@ =~= before.push(adopted(word@)));
                    },
                    _ => {},
                }
            },
            Some(at) => {
                assert(before[at as int] == self.words@[at as int]@);
                match plan_upsert(Some(&self.words[at]), word, update_visit_info) {
                    UpsertAction::Update(changed) => {
                        self.words.set(at, changed);
                        assert(self@ =~= before.update(
                            at as int,
                            updated(before[at as int], word@, update_visit_info),
                        ));
                    },
                    _ => {
                        assert(before =~= before.update(
                            at as int,
                            updated(before[at as int], word@, update_visit_info),
                        ));
                    },
                }
            },
        }
    }

    /// Merges the words of a pulled snapshot into the store, one after
    /// another. The store's schedule is never taken from the snapshot.
    pub fn merge(&mut self, remote: &Vec<Word>)
        ensures
            final(self)@ == merged(old(self)@, records_of(remote@)),
    {
        let ghost start = self@;
        let ghost all = records_of(remote@);
        let mut i: usize = 0;
        assert(all.skip(0) =~= all);
        while i < remote.len()
            invariant
                0 <= i <= remote@.len(),
                all == records_of(remote@),
                merged(start, all) == merged(self@, all.skip(i as int)),
            decreases remote@.len() - i,
        {
            proof {
                assert(all.skip(i as int).first() == remote@[i as int]@);
                assert(all.skip(i as int).drop_first() =~= all.skip(i as int + 1));
            }
            self.upsert_by_name(&remote[i], false);
            i += 1;
        }
    }
}

} // verus!
