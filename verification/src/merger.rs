//! The merge of a pulled snapshot into a store that is kept elsewhere, as a
//! machine that is told what the store answered and says what to ask next.
//!
//! Each word is looked up and written by itself. Where the store fails, the
//! words before stay merged, and the failure says how many they are.

use vstd::prelude::*;
use crate::error::{Failure, SyncError};
use crate::merge::{
    copy_word,
    find,
    lemma_find,
    lemma_find_at,
    merged,
    name_key,
    plan_upsert,
    planned,
    records_of,
    upserted,
    Change,
    UpsertAction,
};
use crate::model::{Record, Word};

verus! {

/// What the machine waits for.
#[derive(Debug, Clone, Copy, PartialEq, Eq, Structural)]
pub enum MergeState {
    /// The store was asked for the word of a name.
    Looking,
    /// The store was asked to write a record.
    Writing,
    /// The merge is over.
    Done,
}

/// What the store answered.
#[derive(Debug, Clone, PartialEq, Eq)]
pub enum MergeEvent {
    /// The record of the name that was asked for, if the store has one.
    Found(Option<Word>),
    /// The record was written.
    Written,
    /// The store failed.
    Failed,
}

/// An answer of the store as a value of mathematics.
pub enum Answer {
    Found(Option<Record>),
    Written,
    Failed,
}

impl View for MergeEvent {
    type V = Answer;

    open spec fn view(&self) -> Answer {
        match self {
            MergeEvent::Found(Some(word)) => Answer::Found(Some(word@)),
            MergeEvent::Found(None) => Answer::Found(None),
            MergeEvent::Written => Answer::Written,
            MergeEvent::Failed => Answer::Failed,
        }
    }
}

/// What the store is to do next.
#[derive(Debug, PartialEq, Eq)]
pub enum MergeAction {
    /// Look up the word of this name, whatever its case.
    Lookup(String),
    /// Insert the record, or write it over the one of its name.
    Write(UpsertAction),
    /// The merge ended with this result.
    Finish(Result<(), SyncError>),
}

/// A request to the store as a value of mathematics.
pub enum Request {
    Lookup(Seq<char>),
    Write(Change),
    Finish(Result<(), Failure>),
}

impl View for MergeAction {
    type V = Request;

    open spec fn view(&self) -> Request {
        match self {
            MergeAction::Lookup(name) => Request::Lookup(name@),
            MergeAction::Write(action) => Request::Write(action@),
            MergeAction::Finish(result) => Request::Finish(
                match result {
                    Ok(_) => Ok(()),
                    Err(e) => Err(e@),
                },
            ),
        }
    }
}

/// The machine: the words of the snapshot, how many of them are merged, and
/// what it waits for.
#[derive(Debug, Clone, PartialEq, Eq)]
pub struct Merger {
    pub remote: Vec<Word>,
    pub applied: usize,
    pub state: MergeState,
}

/// The machine as a value of mathematics.
pub struct Merging {
    pub remote: Seq<Record>,
    pub applied: nat,
    pub state: MergeState,
}

impl View for Merger {
    type V = Merging;

    open spec fn view(&self) -> Merging {
        Merging {
            remote: records_of(self.remote@),
            applied: self.applied as nat,
            state: self.state,
        }
    }
}

impl Merging {
    /// The merge stops: the store failed, or answered out of turn.
    pub open spec fn stop(self) -> (Merging, Request) {
        (
            Merging { state: MergeState::Done, ..self },
            Request::Finish(Err(Failure::PartialMerge(self.applied as usize))),
        )
    }

    /// The word at hand is merged: the next one is looked up, or, where it
    /// was the last, the merge went through.
    pub open spec fn advance(self) -> (Merging, Request) {
        if self.applied + 1 < self.remote.len() {
            (
                Merging { state: MergeState::Looking, applied: self.applied + 1, ..self },
                Request::Lookup(self.remote[self.applied as int + 1].name),
            )
        } else {
            (
                Merging { state: MergeState::Done, applied: self.applied + 1, ..self },
                Request::Finish(Ok(())),
            )
        }
    }

    /// What the machine does when the store answers: the state it goes to
    /// and the request it makes.
    pub open spec fn step(self, answer: Answer) -> (Merging, Request) {
        if self.applied >= self.remote.len() {
            self.stop()
        } else {
            match answer {
                Answer::Failed => self.stop(),
                Answer::Found(existing) => if self.state == MergeState::Looking {
                    match planned(existing, self.remote[self.applied as int], false) {
                        Change::Keep => self.advance(),
                        change => (
                            Merging { state: MergeState::Writing, ..self },
                            Request::Write(change),
                        ),
                    }
                } else {
                    self.stop()
                },
                Answer::Written => if self.state == MergeState::Writing {
                    self.advance()
                } else {
                    self.stop()
                },
            }
        }
    }
}

/// How a merge starts: with the lookup of the first word, or, where the
/// snapshot has no word, not at all.
pub open spec fn begin_merge(remote: Seq<Record>) -> (Merging, Request) {
    if remote.len() == 0 {
        (Merging { remote, applied: 0, state: MergeState::Done }, Request::Finish(Ok(())))
    } else {
        (
            Merging { remote, applied: 0, state: MergeState::Looking },
            Request::Lookup(remote[0].name),
        )
    }
}

impl Merger {
    /// Starts the merge of the words of a snapshot.
    pub fn begin(remote: Vec<Word>) -> (started: (Merger, MergeAction))
        ensures
            (started.0@, started.1@) == begin_merge(records_of(remote@)),
    {
        if remote.len() == 0 {
            (
                Merger { remote, applied: 0, state: MergeState::Done },
                MergeAction::Finish(Ok(())),
            )
        } else {
            let name = remote[0].name.clone();
            assert(records_of(remote@)[0] == remote@[0]@);
            (Merger { remote, applied: 0, state: MergeState::Looking }, MergeAction::Lookup(name))
        }
    }

    /// Stops the merge.
    fn stop(&mut self) -> (action: MergeAction)
        ensures
            (final(self)@, action@) == old(self)@.stop(),
    {
        self.state = MergeState::Done;
        MergeAction::Finish(Err(SyncError::PartialMerge(self.applied)))
    }

    /// Goes on to the next word.
    fn advance(&mut self) -> (action: MergeAction)
        requires
            old(self).applied < old(self).remote@.len(),
        ensures
            (final(self)@, action@) == old(self)@.advance(),
    {
        let total = self.remote.len();
        self.applied = self.applied + 1;
        if self.applied < total {
            self.state = MergeState::Looking;
            assert(records_of(self.remote@)[self.applied as int] == self.remote@[self.applied as int]@);
            MergeAction::Lookup(self.remote[self.applied].name.clone())
        } else {
            self.state = MergeState::Done;
            MergeAction::Finish(Ok(()))
        }
    }

    /// Takes the store's answer to the last request and says what to do
    /// next. The merge is over when the action is `Finish`.
    pub fn step(&mut self, event: MergeEvent) -> (action: MergeAction)
        ensures
            (final(self)@, action@) == old(self)@.step(event@),
    {
        if self.applied >= self.remote.len() {
            return self.stop();
        }
        assert(records_of(self.remote@)[self.applied as int] == self.remote@[self.applied as int]@);
        match event {
            MergeEvent::Failed => self.stop(),
            MergeEvent::Found(existing) => {
                if self.state != MergeState::Looking {
                    return self.stop();
                }
                let planned = match &existing {
                    Some(known) => plan_upsert(Some(known), &self.remote[self.applied], false),
                    None => plan_upsert(None, &self.remote[self.applied], false),
                };
                match planned {
                    UpsertAction::Keep => self.advance(),
                    change => {
                        self.state = MergeState::Writing;
                        MergeAction::Write(change)
                    },
                }
            },
            MergeEvent::Written => {
                if self.state != MergeState::Writing {
                    return self.stop();
                }
                self.advance()
            },
        }
    }
}

/// What a store that holds `records` and does not fail answers to a
/// request, and what it holds then. A record is written over the first one
/// of its name.
pub open spec fn served(records: Seq<Record>, request: Request) -> (Seq<Record>, Answer) {
    match request {
        Request::Lookup(name) => (
            records,
            Answer::Found(
                match find(records, name_key(name)) {
                    Some(at) => Some(records[at]),
                    None => None,
                },
            ),
        ),
        Request::Write(Change::Insert(record)) => (records.push(record), Answer::Written),
        Request::Write(Change::Update(record)) => (
            match find(records, name_key(record.name)) {
                Some(at) => records.update(at, record),
                None => records,
            },
            Answer::Written,
        ),
        _ => (records, Answer::Written),
    }
}

/// How far a merge is from its end.
pub open spec fn distance(merging: Merging, request: Request) -> nat {
    let words = if merging.applied < merging.remote.len() {
        (merging.remote.len() - merging.applied) as nat
    } else {
        0
    };
    match request {
        Request::Finish(_) => 0,
        Request::Write(_) => 2 * words + 1,
        Request::Lookup(_) => 2 * words + 2,
    }
}

/// What a store that does not fail holds when the merge is over, and the
/// request that ends the merge.
pub open spec fn driven(merging: Merging, request: Request, records: Seq<Record>) -> (
    Seq<Record>,
    Request,
)
    decreases distance(merging, request),
{
    match request {
        Request::Finish(_) => (records, request),
        _ => {
            let (held, answer) = served(records, request);
            let (next, asked) = merging.step(answer);
            if distance(next, asked) < distance(merging, request) {
                driven(next, asked, held)
            } else {
                (held, asked)
            }
        },
    }
}

/// A machine that looks up its next word, on a store that does not fail,
/// ends with the words merged that were left.
proof fn lemma_driven_merges(merging: Merging, records: Seq<Record>)
    requires
        merging.state == MergeState::Looking,
        merging.applied < merging.remote.len(),
    ensures
        driven(
            merging,
            Request::Lookup(merging.remote[merging.applied as int].name),
            records,
        ) == (merged(records, merging.remote.skip(merging.applied as int)), Request::Finish(Ok(()))),
    decreases merging.remote.len() - merging.applied, 1int,
{
    let word = merging.remote[merging.applied as int];
    let lookup = Request::Lookup(word.name);
    let rest = merging.remote.skip(merging.applied as int);
    let key = name_key(word.name);
    assert(rest.first() == word);
    assert(rest.drop_first() =~= merging.remote.skip(merging.applied as int + 1));
    lemma_find(records, key);
    let answer = served(records, lookup).1;
    let existing = match find(records, key) {
        Some(at) => Some(records[at]),
        None => None,
    };
    assert(answer == Answer::Found(existing));
    let (next, asked) = merging.step(answer);
    let after = upserted(records, word, false);
    let (last, ends) = merging.advance();
    match planned(existing, word, false) {
        Change::Keep => {
            assert(after =~= records);
            assert((next, asked) == (last, ends));
            lemma_advanced(merging, records);
        },
        Change::Insert(record) => {
            let writing = Merging { state: MergeState::Writing, ..merging };
            assert(next == writing);
            assert(served(records, asked).0 == after);
            assert(writing.step(Answer::Written) == writing.advance());
            assert(writing.advance().1 == ends);
            assert(distance(writing, asked) < distance(merging, lookup));
            lemma_advanced(writing, after);
            assert(driven(writing, asked, records) == driven(
                writing.advance().0,
                writing.advance().1,
                after,
            ));
        },
        Change::Update(record) => {
            let at = find(records, key)->0;
            let writing = Merging { state: MergeState::Writing, ..merging };
            assert(next == writing);
            assert(record.name == records[at].name);
            lemma_find_at(records, name_key(record.name), at);
            assert(served(records, asked).0 == after);
            assert(writing.step(Answer::Written) == writing.advance());
            assert(distance(writing, asked) < distance(merging, lookup));
            lemma_advanced(writing, after);
            assert(driven(writing, asked, records) == driven(
                writing.advance().0,
                writing.advance().1,
                after,
            ));
        },
    }
}

/// A machine that goes on to its next word, on a store that does not fail,
/// ends with the words merged that are left after the one at hand.
proof fn lemma_advanced(merging: Merging, records: Seq<Record>)
    requires
        merging.applied < merging.remote.len(),
    ensures
        distance(merging.advance().0, merging.advance().1) < distance(
            merging,
            Request::Write(Change::Keep),
        ),
        driven(merging.advance().0, merging.advance().1, records) == (
            merged(records, merging.remote.skip(merging.applied as int + 1)),
            Request::Finish(Ok(())),
        ),
    decreases merging.remote.len() - merging.applied, 0int,
{
    let (next, asked) = merging.advance();
    if merging.applied + 1 < merging.remote.len() {
        lemma_driven_merges(next, records);
    } else {
        assert(merging.remote.skip(merging.applied as int + 1) =~= Seq::<Record>::empty());
    }
}

/// On a store that does not fail, the machine leaves the store as `merged`
/// says, and reports that the merge went through.
pub proof fn lemma_merger_merges(local: Seq<Record>, remote: Seq<Record>)
    ensures
        driven(begin_merge(remote).0, begin_merge(remote).1, local) == (
            merged(local, remote),
            Request::Finish(Ok(())),
        ),
{
    if remote.len() > 0 {
        assert(remote.skip(0) =~= remote);
        lemma_driven_merges(begin_merge(remote).0, local);
    }
}

/// When the store fails, the merge ends at once, and reports the number of
/// words that were merged before.
pub proof fn lemma_failure_is_counted(merging: Merging)
    ensures
        merging.step(Answer::Failed).1 == Request::Finish(
            Err(Failure::PartialMerge(merging.applied as usize)),
        ),
        merging.step(Answer::Failed).0.applied == merging.applied,
{
}

} // verus!
