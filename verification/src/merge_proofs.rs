//! What holds of every merge: merging the same snapshot a second time
//! changes nothing, and no merge touches the schedule of a word that the
//! store knew.

use vstd::prelude::*;
use crate::merge::{brings_new, find, lemma_find, lemma_find_at, merged, name_key, updated, upserted};
use crate::model::{
    add_meaning,
    collect,
    has_key,
    listed,
    meaning_map,
    shown_of,
    united,
    Meaning,
    Record,
    MEANING_SEP,
};
use crate::text::{
    has_char,
    lemma_first_sep_at,
    lemma_split_join,
    lemma_split_pieces,
    lemma_trimmed,
    lemma_trimmed_has_no,
    lowercase_of,
    split,
    trimmed,
};

verus! {

/// Whether a meaning is as `add_meaning` makes them: its spelling is
/// trimmed, not empty and free of separators, and its key is the spelling in
/// lower case.
pub open spec fn tidy(meaning: Meaning) -> bool {
    &&& meaning.shown.len() > 0
    &&& trimmed(meaning.shown) == meaning.shown
    &&& !has_char(meaning.shown, MEANING_SEP)
    &&& meaning.key == lowercase_of(meaning.shown)
}

/// Whether the meanings are tidy and no two of them have the same key.
pub open spec fn clean(meanings: Seq<Meaning>) -> bool {
    &&& forall|i: int| 0 <= i < meanings.len() ==> tidy(#[trigger] meanings[i])
    &&& forall|i: int, j: int|
        0 <= i < j < meanings.len() ==> (#[trigger] meanings[i]).key != (#[trigger] meanings[j]).key
}

/// Whether nothing would be added for the piece: nothing remains of it when
/// it is trimmed, or its meaning is there.
pub open spec fn covered(meanings: Seq<Meaning>, piece: Seq<char>) -> bool {
    trimmed(piece).len() == 0 || has_key(meanings, lowercase_of(trimmed(piece)))
}

/// Whether nothing would be added for any of the pieces.
pub open spec fn covers(meanings: Seq<Meaning>, pieces: Seq<Seq<char>>) -> bool {
    forall|j: int| 0 <= j < pieces.len() ==> covered(meanings, #[trigger] pieces[j])
}

/// Whether no piece holds a separator.
pub open spec fn sep_free(pieces: Seq<Seq<char>>) -> bool {
    forall|j: int| 0 <= j < pieces.len() ==> !has_char(#[trigger] pieces[j], MEANING_SEP)
}

/// Whether the store has taken in the meanings of a remote word: it holds a
/// word of that name, which lacks none of them.
pub open spec fn absorbed(records: Seq<Record>, remote: Record) -> bool {
    match find(records, name_key(remote.name)) {
        Some(at) => covers(meaning_map(records[at].meanings), split(remote.meanings, MEANING_SEP)),
        None => false,
    }
}

proof fn lemma_add_keeps_clean(meanings: Seq<Meaning>, piece: Seq<char>)
    requires
        clean(meanings),
        !has_char(piece, MEANING_SEP),
    ensures
        clean(add_meaning(meanings, piece)),
{
    lemma_trimmed(piece);
    lemma_trimmed_has_no(piece, MEANING_SEP);
    let shown = trimmed(piece);
    let key = lowercase_of(shown);
    if !(shown.len() == 0 || has_key(meanings, key)) {
        let more = meanings.push(Meaning { key, shown });
        assert forall|i: int| 0 <= i < more.len() implies tidy(#[trigger] more[i]) by {
            if i < meanings.len() {
                assert(more[i] == meanings[i]);
            }
        }
        assert forall|i: int, j: int| 0 <= i < j < more.len() implies (#[trigger] more[i]).key != (
        #[trigger] more[j]).key by {
            assert(more[i] == meanings[i]);
            if j < meanings.len() {
                assert(more[j] == meanings[j]);
            }
        }
    }
}

proof fn lemma_collect_keeps_clean(meanings: Seq<Meaning>, pieces: Seq<Seq<char>>)
    requires
        clean(meanings),
        sep_free(pieces),
    ensures
        clean(collect(meanings, pieces)),
    decreases pieces.len(),
{
    if pieces.len() > 0 {
        lemma_add_keeps_clean(meanings, pieces.first());
        let rest = pieces.drop_first();
        assert forall|j: int| 0 <= j < rest.len() implies !has_char(#[trigger] rest[j], MEANING_SEP) by {
            assert(rest[j] == pieces[j + 1]);
        }
        lemma_collect_keeps_clean(add_meaning(meanings, pieces.first()), rest);
    }
}

/// Collecting only adds at the end.
proof fn lemma_collect_extends(meanings: Seq<Meaning>, pieces: Seq<Seq<char>>)
    ensures
        collect(meanings, pieces).len() >= meanings.len(),
        collect(meanings, pieces).take(meanings.len() as int) == meanings,
        forall|key: Seq<char>| has_key(meanings, key) ==> has_key(collect(meanings, pieces), key),
    decreases pieces.len(),
{
    let all = collect(meanings, pieces);
    if pieces.len() > 0 {
        let next = add_meaning(meanings, pieces.first());
        lemma_collect_extends(next, pieces.drop_first());
        assert(next.take(meanings.len() as int) =~= meanings);
        assert(all.take(meanings.len() as int) =~= all.take(next.len() as int).take(
            meanings.len() as int,
        ));
    } else {
        assert(all.take(meanings.len() as int) =~= meanings);
    }
    assert forall|key: Seq<char>| has_key(meanings, key) implies has_key(all, key) by {
        let i = choose|i: int| 0 <= i < meanings.len() && (#[trigger] meanings[i]).key == key;
        assert(all.take(meanings.len() as int)[i] == all[i]);
    }
}

/// Meanings that lack nothing of the pieces stay as they are.
proof fn lemma_covered_is_kept(meanings: Seq<Meaning>, pieces: Seq<Seq<char>>)
    requires
        covers(meanings, pieces),
    ensures
        collect(meanings, pieces) == meanings,
    decreases pieces.len(),
{
    if pieces.len() > 0 {
        assert(covered(meanings, pieces[0]));
        let rest = pieces.drop_first();
        assert forall|j: int| 0 <= j < rest.len() implies covered(meanings, #[trigger] rest[j]) by {
            assert(rest[j] == pieces[j + 1]);
        }
        lemma_covered_is_kept(meanings, rest);
    }
}

/// What was collected from pieces lacks nothing of them.
proof fn lemma_collect_covers(meanings: Seq<Meaning>, pieces: Seq<Seq<char>>)
    ensures
        covers(collect(meanings, pieces), pieces),
    decreases pieces.len(),
{
    if pieces.len() > 0 {
        let all = collect(meanings, pieces);
        let next = add_meaning(meanings, pieces.first());
        let rest = pieces.drop_first();
        lemma_collect_covers(next, rest);
        lemma_collect_extends(next, rest);
        let shown = trimmed(pieces.first());
        if shown.len() > 0 && !has_key(meanings, lowercase_of(shown)) {
            assert(next[meanings.len() as int].key == lowercase_of(shown));
            assert(has_key(next, lowercase_of(shown)));
        }
        assert(covered(next, pieces.first()));
        assert forall|j: int| 0 <= j < pieces.len() implies covered(all, #[trigger] pieces[j]) by {
            if j > 0 {
                assert(pieces[j] == rest[j - 1]);
            }
        }
    }
}

/// Meanings that did not grow lacked nothing of the pieces.
proof fn lemma_no_growth_covers(meanings: Seq<Meaning>, pieces: Seq<Seq<char>>)
    requires
        collect(meanings, pieces).len() == meanings.len(),
    ensures
        covers(meanings, pieces),
    decreases pieces.len(),
{
    if pieces.len() > 0 {
        let next = add_meaning(meanings, pieces.first());
        let rest = pieces.drop_first();
        lemma_collect_extends(next, rest);
        assert(next == meanings);
        lemma_no_growth_covers(meanings, rest);
        assert forall|j: int| 0 <= j < pieces.len() implies covered(meanings, #[trigger] pieces[j]) by {
            if j > 0 {
                assert(pieces[j] == rest[j - 1]);
            }
        }
    }
}

/// Meanings with more at their end lack nothing that they did not lack.
proof fn lemma_covers_more(
    meanings: Seq<Meaning>,
    more: Seq<Seq<char>>,
    pieces: Seq<Seq<char>>,
)
    requires
        covers(meanings, pieces),
    ensures
        covers(collect(meanings, more), pieces),
{
    lemma_collect_extends(meanings, more);
    assert forall|j: int| 0 <= j < pieces.len() implies covered(
        collect(meanings, more),
        #[trigger] pieces[j],
    ) by {
        assert(covered(meanings, pieces[j]));
    }
}

proof fn lemma_collect_shown(meanings: Seq<Meaning>, from: int)
    requires
        clean(meanings),
        0 <= from <= meanings.len(),
    ensures
        collect(meanings.take(from), shown_of(meanings).skip(from)) == meanings,
    decreases meanings.len() - from,
{
    let pieces = shown_of(meanings).skip(from);
    if from == meanings.len() {
        assert(meanings.take(from) =~= meanings);
    } else {
        let so_far = meanings.take(from);
        let piece = pieces.first();
        assert(piece == meanings[from].shown);
        assert(tidy(meanings[from]));
        if has_key(so_far, meanings[from].key) {
            let i = choose|i: int| 0 <= i < so_far.len() && (#[trigger] so_far[i]).key == meanings[from].key;
            assert(so_far[i] == meanings[i]);
        }
        assert(add_meaning(so_far, piece) =~= meanings.take(from + 1));
        assert(pieces.drop_first() =~= shown_of(meanings).skip(from + 1));
        lemma_collect_shown(meanings, from + 1);
    }
}

/// Clean meanings are read back from the text that lists them.
pub proof fn lemma_relist(meanings: Seq<Meaning>)
    requires
        clean(meanings),
    ensures
        meaning_map(listed(meanings)) == meanings,
{
    let shown = shown_of(meanings);
    if meanings.len() == 0 {
        let nothing = Seq::<char>::empty();
        assert(listed(meanings) =~= nothing);
        lemma_first_sep_at(nothing, MEANING_SEP, 0);
        assert(split(nothing, MEANING_SEP) =~= seq![nothing]);
        lemma_trimmed(nothing);
        let none = Seq::<Meaning>::empty();
        assert(seq![nothing].drop_first() =~= Seq::<Seq<char>>::empty());
        assert(trimmed(nothing).len() == 0);
        assert(add_meaning(none, seq![nothing].first()) == none);
        assert(collect(none, seq![nothing].drop_first()) == none);
        assert(collect(none, seq![nothing]) == none);
        assert(meaning_map(listed(meanings)) =~= meanings);
    } else {
        assert forall|j: int| 0 <= j < shown.len() implies !has_char(#[trigger] shown[j], MEANING_SEP) by {
            assert(tidy(meanings[j]));
        }
        lemma_split_join(shown, MEANING_SEP);
        lemma_collect_shown(meanings, 0);
        assert(meanings.take(0) =~= Seq::<Meaning>::empty());
        assert(shown.skip(0) =~= shown);
    }
}

/// The meanings of a text are clean, and so are they with those of another
/// text added.
pub proof fn lemma_united_is_clean(mine: Seq<char>, other: Seq<char>)
    ensures
        clean(meaning_map(mine)),
        clean(united(mine, other)),
{
    lemma_split_pieces(mine, MEANING_SEP);
    lemma_split_pieces(other, MEANING_SEP);
    lemma_collect_keeps_clean(Seq::empty(), split(mine, MEANING_SEP));
    lemma_collect_keeps_clean(meaning_map(mine), split(other, MEANING_SEP));
}

/// A store that has taken in a remote word is left as it is by that word.
proof fn lemma_absorbed_is_kept(records: Seq<Record>, remote: Record)
    requires
        absorbed(records, remote),
    ensures
        upserted(records, remote, false) == records,
{
    lemma_find(records, name_key(remote.name));
    let at = find(records, name_key(remote.name))->0;
    lemma_covered_is_kept(meaning_map(records[at].meanings), split(remote.meanings, MEANING_SEP));
    assert(!brings_new(records[at].meanings, remote.meanings));
    assert(updated(records[at], remote, false) == records[at]);
    assert(records.update(at, records[at]) =~= records);
}

/// After a remote word was merged into a store, the store has taken it in.
proof fn lemma_upsert_absorbs(records: Seq<Record>, remote: Record)
    ensures
        absorbed(upserted(records, remote, false), remote),
{
    let key = name_key(remote.name);
    let pieces = split(remote.meanings, MEANING_SEP);
    let after = upserted(records, remote, false);
    lemma_find(records, key);
    match find(records, key) {
        None => {
            assert forall|i: int| 0 <= i < records.len() implies name_key(
                (#[trigger] after[i]).name,
            ) != key by {
                assert(after[i] == records[i]);
            }
            lemma_find_at(after, key, records.len() as int);
            lemma_collect_covers(Seq::empty(), pieces);
        },
        Some(at) => {
            assert forall|i: int| 0 <= i < at implies name_key((#[trigger] after[i]).name) != key by {
                assert(after[i] == records[i]);
            }
            lemma_find_at(after, key, at);
            let before = meaning_map(records[at].meanings);
            if brings_new(records[at].meanings, remote.meanings) {
                let all = united(records[at].meanings, remote.meanings);
                lemma_united_is_clean(records[at].meanings, remote.meanings);
                lemma_relist(all);
                lemma_collect_covers(before, pieces);
            } else {
                lemma_collect_extends(before, pieces);
                lemma_no_growth_covers(before, pieces);
            }
        },
    }
}

/// A store that has taken in a remote word has still taken it in after
/// another word was merged into it.
proof fn lemma_upsert_keeps_absorbed(records: Seq<Record>, other: Record, remote: Record)
    requires
        absorbed(records, remote),
    ensures
        absorbed(upserted(records, other, false), remote),
{
    let key = name_key(remote.name);
    let pieces = split(remote.meanings, MEANING_SEP);
    let after = upserted(records, other, false);
    lemma_find(records, key);
    lemma_find(records, name_key(other.name));
    let at = find(records, key)->0;
    assert(after.len() >= records.len());
    assert forall|i: int| 0 <= i < records.len() implies (#[trigger] after[i]).name
        == records[i].name by {}
    assert forall|i: int| 0 <= i < at implies name_key((#[trigger] after[i]).name) != key by {
        assert(after[i].name == records[i].name);
    }
    assert(after[at].name == records[at].name);
    lemma_find_at(after, key, at);
    if find(records, name_key(other.name)) == Some(at) && brings_new(
        records[at].meanings,
        other.meanings,
    ) {
        let all = united(records[at].meanings, other.meanings);
        lemma_united_is_clean(records[at].meanings, other.meanings);
        lemma_relist(all);
        lemma_covers_more(
            meaning_map(records[at].meanings),
            split(other.meanings, MEANING_SEP),
            pieces,
        );
    } else {
        assert(after[at].meanings == records[at].meanings);
    }
}

proof fn lemma_merge_keeps_absorbed(records: Seq<Record>, others: Seq<Record>, remote: Record)
    requires
        absorbed(records, remote),
    ensures
        absorbed(merged(records, others), remote),
    decreases others.len(),
{
    if others.len() > 0 {
        lemma_upsert_keeps_absorbed(records, others.first(), remote);
        lemma_merge_keeps_absorbed(
            upserted(records, others.first(), false),
            others.drop_first(),
            remote,
        );
    }
}

/// After a merge, the store has taken in every word of the snapshot.
pub proof fn lemma_merge_absorbs(records: Seq<Record>, remote: Seq<Record>)
    ensures
        forall|k: int| 0 <= k < remote.len() ==> absorbed(merged(records, remote), #[trigger] remote[k]),
    decreases remote.len(),
{
    if remote.len() > 0 {
        let next = upserted(records, remote.first(), false);
        let rest = remote.drop_first();
        lemma_upsert_absorbs(records, remote.first());
        lemma_merge_keeps_absorbed(next, rest, remote.first());
        lemma_merge_absorbs(next, rest);
        assert forall|k: int| 0 <= k < remote.len() implies absorbed(
            merged(records, remote),
            #[trigger] remote[k],
        ) by {
            if k > 0 {
                assert(remote[k] == rest[k - 1]);
            }
        }
    }
}

proof fn lemma_merge_of_absorbed(records: Seq<Record>, remote: Seq<Record>)
    requires
        forall|k: int| 0 <= k < remote.len() ==> absorbed(records, #[trigger] remote[k]),
    ensures
        merged(records, remote) == records,
    decreases remote.len(),
{
    if remote.len() > 0 {
        let rest = remote.drop_first();
        assert(absorbed(records, remote[0]));
        lemma_absorbed_is_kept(records, remote.first());
        assert forall|k: int| 0 <= k < rest.len() implies absorbed(records, #[trigger] rest[k]) by {
            assert(rest[k] == remote[k + 1]);
        }
        lemma_merge_of_absorbed(records, rest);
    }
}

/// Merging the same snapshot into a store twice leaves the store as merging
/// it once does.
pub proof fn lemma_merge_idempotent(local: Seq<Record>, remote: Seq<Record>)
    ensures
        merged(merged(local, remote), remote) == merged(local, remote),
{
    lemma_merge_absorbs(local, remote);
    lemma_merge_of_absorbed(merged(local, remote), remote);
}

/// Whether two records differ in nothing but their meanings.
pub open spec fn same_but_meanings(a: Record, b: Record) -> bool {
    a == (Record { meanings: a.meanings, ..b })
}

/// A merge keeps every word that the store knew at its place, with its name
/// and its schedule: the period and both visits. Only meanings are added.
pub proof fn lemma_merge_keeps_schedule(local: Seq<Record>, remote: Seq<Record>)
    ensures
        merged(local, remote).len() >= local.len(),
        forall|i: int|
            0 <= i < local.len() ==> {
                &&& same_but_meanings(#[trigger] merged(local, remote)[i], local[i])
                &&& merged(local, remote)[i].period_days == local[i].period_days
                &&& merged(local, remote)[i].last_visit == local[i].last_visit
                &&& merged(local, remote)[i].next_visit == local[i].next_visit
            },
    decreases remote.len(),
{
    if remote.len() > 0 {
        let next = upserted(local, remote.first(), false);
        lemma_find(local, name_key(remote.first().name));
        lemma_merge_keeps_schedule(next, remote.drop_first());
        assert forall|i: int| 0 <= i < local.len() implies same_but_meanings(
            #[trigger] merged(local, remote)[i],
            local[i],
        ) by {
            assert(same_but_meanings(next[i], local[i]));
            assert(same_but_meanings(merged(next, remote.drop_first())[i], next[i]));
        }
    }
}

} // verus!
