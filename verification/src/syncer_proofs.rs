//! What holds of every retrieval: a server whose subject search is known to
//! be broken is never asked for one, and a scan of the mailbox finds the one
//! snapshot wherever it lies, in no more batches than the mailbox has.

use vstd::prelude::*;
use vstd::relations::*;
use vstd::seq_lib::*;
use crate::conf::{RetrievalModeHint, SyncConfig};
use crate::sync_data::snapshot_in;
use crate::syncer::{
    batch_len,
    begin_with,
    best_match,
    descending,
    higher_first,
    is_snapshot,
    max_id,
    Action,
    Event,
    Fetched,
    PullState,
    SearchQuery,
    Session,
    BATCH_SIZE,
};

verus! {

/// The actions that the machine asks for while the session answers with the
/// given events, one after another.
pub open spec fn actions_along(session: Session, events: Seq<Event>) -> Seq<Action>
    decreases events.len(),
{
    if events.len() == 0 {
        Seq::empty()
    } else {
        let (next, action) = session.step(events.first());
        seq![action] + actions_along(next, events.drop_first())
    }
}

/// The machine after the session answered with the given events.
pub open spec fn session_after(session: Session, events: Seq<Event>) -> Session
    decreases events.len(),
{
    if events.len() == 0 {
        session
    } else {
        session_after(session.step(events.first()).0, events.drop_first())
    }
}

/// Once the subject search is known to be broken, the machine never asks for
/// it, whatever the session answers, and it does not forget what it knows.
pub proof fn lemma_broken_search_is_never_used(session: Session, events: Seq<Event>)
    requires
        session.hint == RetrievalModeHint::PrimarySearchBroken,
    ensures
        forall|i: int|
            0 <= i < actions_along(session, events).len() ==> actions_along(session, events)[i]
                != Action::Search(SearchQuery::SubjectMarker),
        session_after(session, events).hint == RetrievalModeHint::PrimarySearchBroken,
    decreases events.len(),
{
    if events.len() > 0 {
        let (next, action) = session.step(events.first());
        lemma_broken_search_is_never_used(next, events.drop_first());
    }
}

/// What the machine has learned of the server's search, it does not forget:
/// the hint is unknown after the session's answers only where it was
/// unknown before.
pub proof fn lemma_hint_is_kept(session: Session, events: Seq<Event>)
    requires
        session.hint != RetrievalModeHint::Unknown,
    ensures
        session_after(session, events).hint != RetrievalModeHint::Unknown,
    decreases events.len(),
{
    if events.len() > 0 {
        lemma_hint_is_kept(session.step(events.first()).0, events.drop_first());
    }
}

/// A retrieval that starts from a profile which records the subject search
/// as broken never asks for that search.
pub proof fn lemma_hint_stability(config: SyncConfig, has_password: bool, events: Seq<Event>)
    requires
        config.retrieval_hint == RetrievalModeHint::PrimarySearchBroken,
    ensures
        ({
            let (session, first) = begin_with(Some(config), has_password);
            &&& first != Action::Search(SearchQuery::SubjectMarker)
            &&& forall|i: int|
                0 <= i < actions_along(session, events).len() ==> actions_along(
                    session,
                    events,
                )[i] != Action::Search(SearchQuery::SubjectMarker)
            &&& session_after(session, events).hint == RetrievalModeHint::PrimarySearchBroken
        }),
{
    let (session, first) = begin_with(Some(config), has_password);
    lemma_broken_search_is_never_used(session, events);
}

/// Whether `answer` is what a server that holds `mailbox` brings for a fetch
/// of `batch`: each message that was asked for and that the mailbox holds,
/// with the mailbox's bytes, and nothing else; the order is the server's.
pub open spec fn answers(batch: Seq<u32>, answer: Seq<Fetched>, mailbox: Map<u32, Seq<u8>>) -> bool {
    &&& forall|k: int|
        0 <= k < answer.len() ==> batch.contains((#[trigger] answer[k]).id)
            && mailbox.dom().contains(answer[k].id) && answer[k].body == mailbox[answer[k].id]
    &&& forall|i: int|
        0 <= i < batch.len() && mailbox.dom().contains(#[trigger] batch[i]) ==> exists|k: int|
            0 <= k < answer.len() && (#[trigger] answer[k]).id == batch[i]
}

/// A mail server as the machine meets it: whether it asks for an
/// identification, the identifiers that its subject search finds and those
/// that a search for every message lists, and what it brings for a fetch.
pub struct Server {
    pub has_id: bool,
    pub found: Seq<u32>,
    pub listed: Seq<u32>,
    pub fetch: spec_fn(Seq<u32>) -> Seq<Fetched>,
}

impl Server {
    /// Whether the server holds `mailbox`, in whatever order: it lists each
    /// message once, fetches what is asked for, and its subject search
    /// finds nothing but snapshots, though it may miss them.
    pub open spec fn holds(self, mailbox: Map<u32, Seq<u8>>) -> bool {
        &&& self.listed.no_duplicates()
        &&& self.listed.to_set() == mailbox.dom()
        &&& forall|batch: Seq<u32>| #[trigger] answers(batch, (self.fetch)(batch), mailbox)
        &&& forall|i: int|
            0 <= i < self.found.len() ==> mailbox.dom().contains(#[trigger] self.found[i])
                && is_snapshot(mailbox[self.found[i]])
    }

    /// What the server answers to an action, when nothing fails.
    pub open spec fn answer_to(self, action: Action) -> Event {
        match action {
            Action::Connect(_) => Event::Connected,
            Action::Login => Event::LoggedIn,
            Action::QueryCapabilities => Event::Capabilities(self.has_id),
            Action::Identify => Event::Identified,
            Action::SelectInbox => Event::Selected,
            Action::Search(SearchQuery::SubjectMarker) => Event::SearchResult(self.found),
            Action::Search(SearchQuery::All) => Event::SearchResult(self.listed),
            Action::Fetch(ids) => Event::Fetched((self.fetch)(ids)),
            Action::Finish(_) => Event::Selected,
        }
    }
}

/// Whether exactly one message of the mailbox is a snapshot: the one with
/// the identifier `target`.
pub open spec fn only_snapshot(mailbox: Map<u32, Seq<u8>>, target: u32) -> bool {
    &&& mailbox.dom().contains(target)
    &&& is_snapshot(mailbox[target])
    &&& forall|id: u32| mailbox.dom().contains(id) && id != target ==> !is_snapshot(mailbox[id])
}

/// How a retrieval goes on from an action when the server answers without
/// failure, for at most `steps` actions: the action it has come to, and the
/// number of fetches on the way.
pub open spec fn retrieved(session: Session, action: Action, server: Server, steps: nat) -> (
    Action,
    nat,
)
    decreases steps,
{
    if steps == 0 || action is Finish {
        (action, 0)
    } else {
        let (next, asked) = session.step(server.answer_to(action));
        let (last, fetches) = retrieved(next, asked, server, (steps - 1) as nat);
        (
            last,
            if action is Fetch {
                fetches + 1
            } else {
                fetches
            },
        )
    }
}

/// The action that ends a retrieval which found a snapshot in the message
/// `body`: the retrieval finishes with what the message holds.
pub open spec fn delivered(body: Seq<u8>) -> Action {
    Action::Finish(
        match snapshot_in(body) {
            Ok(snapshot) => Ok(Some(snapshot)),
            Err(e) => Err(e@),
        },
    )
}

/// The best match is a snapshot among the messages.
pub proof fn lemma_best_match_is_snapshot(messages: Seq<Fetched>)
    ensures
        best_match(messages) matches Some(at) ==> 0 <= at < messages.len() && is_snapshot(
            messages[at].body,
        ),
        best_match(messages) is None ==> forall|k: int|
            0 <= k < messages.len() ==> !is_snapshot(#[trigger] messages[k].body),
    decreases messages.len(),
{
    if messages.len() > 0 {
        let earlier = messages.drop_last();
        lemma_best_match_is_snapshot(earlier);
        if best_match(messages) is None {
            assert forall|k: int| 0 <= k < messages.len() implies !is_snapshot(
                #[trigger] messages[k].body,
            ) by {
                if k < earlier.len() {
                    assert(earlier[k] == messages[k]);
                }
            }
        } else if best_match(messages) == best_match(earlier) {
            let at = best_match(earlier)->0;
            assert(earlier[at] == messages[at]);
        }
    }
}

/// The highest of some identifiers is one of them.
pub proof fn lemma_max_id_is_one(ids: Seq<u32>)
    requires
        ids.len() > 0,
    ensures
        ids.contains(max_id(ids)),
    decreases ids.len(),
{
    let earlier = ids.drop_last();
    if earlier.len() > 0 {
        lemma_max_id_is_one(earlier);
        if max_id(ids) == max_id(earlier) {
            let i = choose|i: int| 0 <= i < earlier.len() && earlier[i] == max_id(earlier);
            assert(ids[i] == max_id(ids));
        } else {
            assert(ids[ids.len() - 1] == max_id(ids));
        }
    } else {
        assert(max_id(earlier) == 0);
        assert(ids.last() == ids[0]);
        assert(ids[0] == max_id(ids));
    }
}

/// A scan that stands before the place of the one snapshot finds it, and
/// fetches one batch for every fifty identifiers up to that place.
proof fn lemma_scan_finds(
    session: Session,
    batch: Seq<u32>,
    server: Server,
    mailbox: Map<u32, Seq<u8>>,
    sorted: Seq<u32>,
    from: int,
    place: int,
    steps: nat,
)
    requires
        session.state == PullState::FallbackScanning,
        server.holds(mailbox),
        sorted.no_duplicates(),
        forall|i: int| 0 <= i < sorted.len() ==> mailbox.dom().contains(#[trigger] sorted[i]),
        0 <= from <= place < sorted.len(),
        is_snapshot(mailbox[sorted[place]]),
        forall|i: int| 0 <= i < sorted.len() && i != place ==> !is_snapshot(mailbox[sorted[i]]),
        batch == sorted.skip(from).take(batch_len(sorted.skip(from))),
        session.pending == sorted.skip(from).skip(batch_len(sorted.skip(from))),
        steps >= sorted.len() - from,
    ensures
        retrieved(session, Action::Fetch(batch), server, steps) == (
            delivered(mailbox[sorted[place]]),
            ((place - from) / (BATCH_SIZE as int) + 1) as nat,
        ),
    decreases sorted.len() - from,
{
    let rest = sorted.skip(from);
    let n = batch_len(rest);
    let answer = (server.fetch)(batch);
    let target = sorted[place];
    let (next, action) = session.step(Event::Fetched(answer));
    assert(server.answer_to(Action::Fetch(batch)) == Event::Fetched(answer));
    assert(answers(batch, answer, mailbox));
    assert(forall|i: int| 0 <= i < batch.len() ==> batch[i] == sorted[from + i]);
    lemma_best_match_is_snapshot(answer);
    if place < from + n {
        assert(batch[place - from] == target);
        let k = choose|k: int|
            0 <= k < answer.len() && (#[trigger] answer[k]).id == batch[place - from];
        assert(is_snapshot(answer[k].body));
        let at = best_match(answer)->0;
        assert(batch.contains(answer[at].id));
        let i = choose|i: int| 0 <= i < batch.len() && batch[i] == answer[at].id;
        assert(sorted[from + i] == answer[at].id);
        assert(from + i == place);
        assert((place - from) / (BATCH_SIZE as int) == 0);
        assert(action == delivered(mailbox[target]));
        assert(retrieved(next, action, server, (steps - 1) as nat) == (action, 0nat));
    } else {
        assert forall|k: int| 0 <= k < answer.len() implies !is_snapshot(
            #[trigger] answer[k].body,
        ) by {
            assert(batch.contains(answer[k].id));
            let i = choose|i: int| 0 <= i < batch.len() && batch[i] == answer[k].id;
            assert(sorted[from + i] == answer[k].id);
        }
        assert(best_match(answer) is None);
        assert(n == BATCH_SIZE);
        assert(session.pending =~= sorted.skip(from + n));
        assert(session.pending.len() > 0);
        let more = session.pending.take(batch_len(session.pending));
        assert(action == Action::Fetch(more));
        assert(next.pending =~= sorted.skip(from + n).skip(batch_len(sorted.skip(from + n))));
        lemma_scan_finds(next, more, server, mailbox, sorted, from + n, place, (steps - 1) as nat);
        assert((place - from) / (BATCH_SIZE as int) == (place - from - n) / (BATCH_SIZE as int)
            + 1);
    }
}

/// A scan finds the one snapshot of a mailbox in whatever order the server
/// lists and fetches the messages, and fetches no more batches than fifty
/// messages each take to cover the mailbox.
pub proof fn lemma_fallback_selection(
    session: Session,
    server: Server,
    mailbox: Map<u32, Seq<u8>>,
    target: u32,
    steps: nat,
)
    requires
        session.state == PullState::Listing,
        server.holds(mailbox),
        only_snapshot(mailbox, target),
        steps > server.listed.len(),
    ensures
        retrieved(session, Action::Search(SearchQuery::All), server, steps).0 == delivered(
            mailbox[target],
        ),
        (retrieved(session, Action::Search(SearchQuery::All), server, steps).1 - 1) * BATCH_SIZE
            < server.listed.len(),
{
    broadcast use group_to_multiset_ensures;

    let ids = server.listed;
    let geq = |a: u32, b: u32| higher_first(a, b);
    let sorted = descending(ids);
    assert(total_ordering(geq));
    ids.lemma_sort_by_ensures(geq);
    ids.lemma_multiset_has_no_duplicates();
    sorted.lemma_multiset_has_no_duplicates_conv();
    assert(sorted.len() == ids.len()) by {
        assert(sorted.to_multiset().len() == ids.to_multiset().len());
    }
    assert forall|i: int| 0 <= i < sorted.len() implies mailbox.dom().contains(
        #[trigger] sorted[i],
    ) by {
        assert(sorted.contains(sorted[i]));
        assert(ids.contains(sorted[i]));
    }
    assert(ids.contains(target));
    assert(sorted.contains(target)) by {
        to_multiset_contains(ids, target);
        to_multiset_contains(sorted, target);
    }
    let place = choose|i: int| 0 <= i < sorted.len() && sorted[i] == target;
    assert forall|i: int| 0 <= i < sorted.len() && i != place implies !is_snapshot(
        mailbox[sorted[i]],
    ) by {
        assert(sorted[i] != sorted[place]);
    }
    let listed = Session { pending: sorted, ..session };
    let (scanning, first) = listed.next_batch();
    assert(session.step(server.answer_to(Action::Search(SearchQuery::All))) == (scanning, first));
    assert(sorted.skip(0) =~= sorted);
    let batch = sorted.take(batch_len(sorted));
    lemma_scan_finds(scanning, batch, server, mailbox, sorted, 0, place, (steps - 1) as nat);
    let fetches = retrieved(scanning, first, server, (steps - 1) as nat).1;
    assert(fetches == place / (BATCH_SIZE as int) + 1);
    assert((fetches - 1) * BATCH_SIZE <= place) by (nonlinear_arith)
        requires
            fetches - 1 == place / (BATCH_SIZE as int),
            BATCH_SIZE == 50,
            place >= 0,
    ;
}

/// From the selection of the mailbox on, a retrieval finds the one
/// snapshot, through the subject search or, where that finds nothing or is
/// known to be broken, through a scan.
proof fn lemma_selected_finds(
    session: Session,
    server: Server,
    mailbox: Map<u32, Seq<u8>>,
    target: u32,
    steps: nat,
)
    requires
        session.state == PullState::Selecting,
        server.holds(mailbox),
        only_snapshot(mailbox, target),
        steps > server.listed.len() + 2,
    ensures
        retrieved(session, Action::SelectInbox, server, steps).0 == delivered(mailbox[target]),
        (retrieved(session, Action::SelectInbox, server, steps).1 - 1) * BATCH_SIZE
            < server.listed.len(),
{
    let (selected, search) = session.step(Event::Selected);
    assert(server.answer_to(Action::SelectInbox) == Event::Selected);
    assert(server.listed.contains(target));
    assert(server.listed.len() > 0);
    if session.hint == RetrievalModeHint::PrimarySearchBroken {
        lemma_fallback_selection(selected, server, mailbox, target, (steps - 1) as nat);
    } else {
        assert(search == Action::Search(SearchQuery::SubjectMarker));
        let (searched, then) = selected.step(Event::SearchResult(server.found));
        assert(server.answer_to(search) == Event::SearchResult(server.found));
        if server.found.len() > 0 {
            lemma_max_id_is_one(server.found);
            let top = max_id(server.found);
            let i = choose|i: int| 0 <= i < server.found.len() && server.found[i] == top;
            assert(mailbox.dom().contains(server.found[i]) && is_snapshot(mailbox[server.found[i]]));
            assert(top == target);
            let batch = seq![top];
            assert(then == Action::Fetch(batch));
            let answer = (server.fetch)(batch);
            assert(answers(batch, answer, mailbox));
            assert(batch[0] == top);
            assert(answer.len() > 0);
            assert(batch.contains(answer[0].id));
            assert(answer[0].id == target);
            assert(server.answer_to(then) == Event::Fetched(answer));
            let (done, last) = searched.step(Event::Fetched(answer));
            assert(last == delivered(mailbox[target]));
            assert(retrieved(done, last, server, (steps - 3) as nat) == (last, 0nat));
            assert(retrieved(searched, then, server, (steps - 2) as nat) == (last, 1nat));
            assert(retrieved(selected, search, server, (steps - 1) as nat) == (last, 1nat));
        } else {
            assert(then == Action::Search(SearchQuery::All));
            lemma_fallback_selection(searched, server, mailbox, target, (steps - 2) as nat);
            assert(retrieved(selected, search, server, (steps - 1) as nat) == retrieved(
                searched,
                then,
                server,
                (steps - 2) as nat,
            ));
        }
    }
}

/// A retrieval finds the one snapshot of a mailbox, whatever the profile
/// knows of the server's search, whether the server asks for an
/// identification, and in whatever order it lists and fetches the messages.
/// It fetches no more batches than fifty messages each take to cover the
/// mailbox.
pub proof fn lemma_retrieve_finds_the_snapshot(
    config: SyncConfig,
    server: Server,
    mailbox: Map<u32, Seq<u8>>,
    target: u32,
    steps: nat,
)
    requires
        server.holds(mailbox),
        only_snapshot(mailbox, target),
        steps > server.listed.len() + 6,
    ensures
        ({
            let (session, first) = begin_with(Some(config), true);
            &&& retrieved(session, first, server, steps).0 == delivered(mailbox[target])
            &&& (retrieved(session, first, server, steps).1 - 1) * BATCH_SIZE < server.listed.len()
        }),
{
    let (connecting, connect) = begin_with(Some(config), true);
    let (logging_in, login) = connecting.step(server.answer_to(connect));
    let (authenticated, query) = logging_in.step(server.answer_to(login));
    let (asked, next) = authenticated.step(server.answer_to(query));
    assert(login == Action::Login);
    assert(query == Action::QueryCapabilities);
    if server.has_id {
        assert(next == Action::Identify);
        let (selecting, select) = asked.step(server.answer_to(next));
        assert(select == Action::SelectInbox);
        lemma_selected_finds(selecting, server, mailbox, target, (steps - 4) as nat);
        assert(retrieved(asked, next, server, (steps - 3) as nat) == retrieved(
            selecting,
            select,
            server,
            (steps - 4) as nat,
        ));
    } else {
        assert(next == Action::SelectInbox);
        lemma_selected_finds(asked, server, mailbox, target, (steps - 3) as nat);
    }
    assert(retrieved(authenticated, query, server, (steps - 2) as nat) == retrieved(
        asked,
        next,
        server,
        (steps - 3) as nat,
    ));
    assert(retrieved(logging_in, login, server, (steps - 1) as nat) == retrieved(
        authenticated,
        query,
        server,
        (steps - 2) as nat,
    ));
    assert(retrieved(connecting, connect, server, steps) == retrieved(
        logging_in,
        login,
        server,
        (steps - 1) as nat,
    ));
}

} // verus!
