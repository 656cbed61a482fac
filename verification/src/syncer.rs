//! The retrieval of the latest snapshot from a mailbox, as a machine that is
//! told what the mail session answered and says what to ask next.
//!
//! The session itself is kept by the caller. It carries out each action and
//! reports the answer as an event, until the action is `Finish`.
//!
//! The machine connects, logs in, identifies itself to a server that asks
//! for it, and selects the mailbox. It then asks for the messages whose
//! subject holds the marker and fetches the one with the highest identifier.
//! Where that search finds nothing, or is known to miss snapshots on this
//! server, the machine lists every message instead and fetches them fifty
//! at a time, highest identifiers first, until a batch holds a snapshot. A
//! fetched message is read at once: there is no state between a fetch and
//! the result.

use vstd::prelude::*;
use vstd::relations::*;
use vstd::seq_lib::*;
use vstd::string::*;
use crate::conf::{Encryption, RetrievalModeHint, SyncConfig};
use crate::error::{Failure, ProtocolStage, SyncError};
use crate::subject::{has_marker, starts_with_marker, SYNC_MARKER};
use crate::sync_data::{mail_subject, mail_subject_of, snapshot_in, Snapshot, SyncData};
use crate::text::{decimal, decimal_text, string_of};

verus! {

/// How many messages are fetched at once when a mailbox is scanned.
pub const BATCH_SIZE: usize = 50;

/// The mailbox that snapshots are read from.
pub const MAILBOX: &'static str = "INBOX";

/// What is fetched of a message: all of it.
pub const FETCH_ITEMS: &'static str = "RFC822";

/// The identification that is sent to a server that asks for one.
pub const IMAP_ID_COMMAND: &'static str = "ID (\"name\" \"wordmem\")";

/// The cause that is reported when the session answers out of turn.
pub const UNEXPECTED: &'static str = "unexpected response";

/// The cause that is reported when a fetch of a found message is empty.
pub const NO_MESSAGE: &'static str = "no message was returned";

/// What the machine waits for.
#[derive(Debug, Clone, Copy, PartialEq, Eq, Structural)]
pub enum PullState {
    /// The connection is being opened.
    Connecting,
    /// The identity was sent.
    LoggingIn,
    /// The login went through; the capabilities were asked for.
    Authenticated,
    /// The identification was sent.
    Identifying,
    /// The mailbox is being selected.
    Selecting,
    /// The subject search is out.
    Searching,
    /// The search for every message is out.
    Listing,
    /// The message that the subject search found is being fetched.
    FoundViaPrimary,
    /// A batch of the mailbox is being fetched.
    FallbackScanning,
    /// The retrieval is over.
    Done,
}

/// A search that the machine asks for.
#[derive(Debug, Clone, Copy, PartialEq, Eq, Structural)]
pub enum SearchQuery {
    /// The messages whose subject holds the marker.
    SubjectMarker,
    /// Every message of the mailbox.
    All,
}

/// A message as the session fetched it.
#[derive(Debug, Clone, PartialEq, Eq)]
pub struct FetchedMessage {
    /// The message's identifier in the mailbox.
    pub id: u32,
    /// The raw message.
    pub body: Vec<u8>,
}

/// A fetched message as a value of mathematics.
pub struct Fetched {
    pub id: u32,
    pub body: Seq<u8>,
}

impl View for FetchedMessage {
    type V = Fetched;

    open spec fn view(&self) -> Fetched {
        Fetched { id: self.id, body: self.body@ }
    }
}

/// What the session answered.
#[derive(Debug, Clone, PartialEq, Eq)]
pub enum PullEvent {
    Connected,
    LoggedIn,
    LoginRejected,
    /// The capabilities came; the flag says whether `ID` is among them.
    Capabilities(bool),
    Identified,
    Selected,
    /// The identifiers that a search found, in any order.
    SearchResult(Vec<u32>),
    /// The messages that a fetch brought, in any order.
    Fetched(Vec<FetchedMessage>),
    /// The last action failed, for the given cause.
    Failed(String),
}

/// An answer of the session as a value of mathematics.
pub enum Event {
    Connected,
    LoggedIn,
    LoginRejected,
    Capabilities(bool),
    Identified,
    Selected,
    SearchResult(Seq<u32>),
    Fetched(Seq<Fetched>),
    Failed(Seq<char>),
}

/// The fetched messages that a vector holds.
pub open spec fn fetched_of(messages: Seq<FetchedMessage>) -> Seq<Fetched> {
    messages.map_values(|m: FetchedMessage| m@)
}

impl View for PullEvent {
    type V = Event;

    open spec fn view(&self) -> Event {
        match self {
            PullEvent::Connected => Event::Connected,
            PullEvent::LoggedIn => Event::LoggedIn,
            PullEvent::LoginRejected => Event::LoginRejected,
            PullEvent::Capabilities(has_id) => Event::Capabilities(*has_id),
            PullEvent::Identified => Event::Identified,
            PullEvent::Selected => Event::Selected,
            PullEvent::SearchResult(ids) => Event::SearchResult(ids@),
            PullEvent::Fetched(messages) => Event::Fetched(fetched_of(messages@)),
            PullEvent::Failed(cause) => Event::Failed(cause@),
        }
    }
}

/// What the session is to do next.
#[derive(Debug, PartialEq, Eq)]
pub enum PullAction {
    /// Open the connection to the mailbox service, secured as said.
    Connect(Encryption),
    /// Send the identity.
    Login,
    /// Ask for the server's capabilities.
    QueryCapabilities,
    /// Send the identification.
    Identify,
    /// Select the mailbox.
    SelectInbox,
    /// Run a search.
    Search(SearchQuery),
    /// Fetch the messages with these identifiers, whole.
    Fetch(Vec<u32>),
    /// Close the session: the retrieval ended with this result.
    Finish(Result<Option<SyncData>, SyncError>),
}

/// An action as a value of mathematics.
pub enum Action {
    Connect(Encryption),
    Login,
    QueryCapabilities,
    Identify,
    SelectInbox,
    Search(SearchQuery),
    Fetch(Seq<u32>),
    Finish(Result<Option<Snapshot>, Failure>),
}

impl View for PullAction {
    type V = Action;

    open spec fn view(&self) -> Action {
        match self {
            PullAction::Connect(encryption) => Action::Connect(*encryption),
            PullAction::Login => Action::Login,
            PullAction::QueryCapabilities => Action::QueryCapabilities,
            PullAction::Identify => Action::Identify,
            PullAction::SelectInbox => Action::SelectInbox,
            PullAction::Search(query) => Action::Search(*query),
            PullAction::Fetch(ids) => Action::Fetch(ids@),
            PullAction::Finish(result) => Action::Finish(
                match result {
                    Ok(Some(data)) => Ok(Some(data@)),
                    Ok(None) => Ok(None),
                    Err(e) => Err(e@),
                },
            ),
        }
    }
}

/// The machine: what it waits for, what it knows of the server's subject
/// search, and the identifiers that a scan has not fetched yet, highest
/// first.
#[derive(Debug, Clone, PartialEq, Eq)]
pub struct Syncer {
    pub state: PullState,
    pub hint: RetrievalModeHint,
    pub pending: Vec<u32>,
}

/// The machine as a value of mathematics.
pub struct Session {
    pub state: PullState,
    pub hint: RetrievalModeHint,
    pub pending: Seq<u32>,
}

impl View for Syncer {
    type V = Session;

    open spec fn view(&self) -> Session {
        Session { state: self.state, hint: self.hint, pending: self.pending@ }
    }
}

/// The step of the session that a state waits in.
pub open spec fn stage_of(state: PullState) -> ProtocolStage {
    match state {
        PullState::Connecting => ProtocolStage::Connect,
        PullState::LoggingIn => ProtocolStage::Login,
        PullState::Authenticated => ProtocolStage::Capabilities,
        PullState::Identifying => ProtocolStage::Identify,
        PullState::Selecting => ProtocolStage::Select,
        PullState::Searching => ProtocolStage::Search,
        PullState::Listing => ProtocolStage::Search,
        PullState::FoundViaPrimary => ProtocolStage::Fetch,
        PullState::FallbackScanning => ProtocolStage::Fetch,
        PullState::Done => ProtocolStage::Finished,
    }
}

/// Whether `a` comes before `b`, or with it, when identifiers are put
/// highest first.
pub open spec fn higher_first(a: u32, b: u32) -> bool {
    a >= b
}

/// The identifiers, highest first.
pub open spec fn descending(ids: Seq<u32>) -> Seq<u32> {
    ids.sort_by(|a: u32, b: u32| higher_first(a, b))
}

/// The highest of the identifiers; 0 where there is none.
pub open spec fn max_id(ids: Seq<u32>) -> u32
    decreases ids.len(),
{
    if ids.len() == 0 {
        0
    } else {
        let rest = max_id(ids.drop_last());
        if ids.last() > rest {
            ids.last()
        } else {
            rest
        }
    }
}

/// Whether a fetched message is a snapshot: its subject starts with the
/// marker.
pub open spec fn is_snapshot(body: Seq<u8>) -> bool {
    match mail_subject_of(body) {
        Some(subject) => has_marker(subject),
        None => false,
    }
}

/// The place of the snapshot with the highest identifier among fetched
/// messages, the first of them where several have it; `None` where no
/// message is a snapshot.
pub open spec fn best_match(messages: Seq<Fetched>) -> Option<int>
    decreases messages.len(),
{
    if messages.len() == 0 {
        None
    } else {
        let earlier = best_match(messages.drop_last());
        let at = messages.len() - 1;
        if is_snapshot(messages[at].body) && (earlier is None || messages[earlier->0].id
            < messages[at].id) {
            Some(at)
        } else {
            earlier
        }
    }
}

/// How many of the pending identifiers go into the next batch.
pub open spec fn batch_len(pending: Seq<u32>) -> int {
    if pending.len() < BATCH_SIZE {
        pending.len() as int
    } else {
        BATCH_SIZE as int
    }
}

impl Session {
    /// The same machine, waiting for something else.
    pub open spec fn at(self, state: PullState) -> Session {
        Session { state, ..self }
    }

    /// The retrieval ends.
    pub open spec fn finish(self, result: Result<Option<Snapshot>, Failure>) -> (Session, Action) {
        (
            Session { state: PullState::Done, hint: self.hint, pending: Seq::empty() },
            Action::Finish(result),
        )
    }

    /// The retrieval ends with a transport failure at the current step.
    pub open spec fn fail(self, cause: Seq<char>) -> (Session, Action) {
        self.finish(Err(Failure::TransportFailure(stage_of(self.state), cause)))
    }

    /// The retrieval ends with what a found message holds.
    pub open spec fn deliver(self, body: Seq<u8>) -> (Session, Action) {
        self.finish(
            match snapshot_in(body) {
                Ok(snapshot) => Ok(Some(snapshot)),
                Err(e) => Err(e@),
            },
        )
    }

    /// The scan goes on: the next batch of pending identifiers is fetched,
    /// or, where none is left, the mailbox holds no snapshot.
    pub open spec fn next_batch(self) -> (Session, Action) {
        if self.pending.len() == 0 {
            self.finish(Ok(None))
        } else {
            let n = batch_len(self.pending);
            (
                Session {
                    state: PullState::FallbackScanning,
                    hint: self.hint,
                    pending: self.pending.skip(n),
                },
                Action::Fetch(self.pending.take(n)),
            )
        }
    }

    /// What the machine does when the session answers: the state it goes to
    /// and the action it asks for.
    pub open spec fn step(self, event: Event) -> (Session, Action) {
        match event {
            Event::Failed(cause) => self.fail(cause),
            Event::Connected => if self.state == PullState::Connecting {
                (self.at(PullState::LoggingIn), Action::Login)
            } else {
                self.fail(UNEXPECTED@)
            },
            Event::LoggedIn => if self.state == PullState::LoggingIn {
                (self.at(PullState::Authenticated), Action::QueryCapabilities)
            } else {
                self.fail(UNEXPECTED@)
            },
            Event::LoginRejected => if self.state == PullState::LoggingIn {
                self.finish(Err(Failure::AuthFailed))
            } else {
                self.fail(UNEXPECTED@)
            },
            Event::Capabilities(has_id) => if self.state == PullState::Authenticated {
                if has_id {
                    (self.at(PullState::Identifying), Action::Identify)
                } else {
                    (self.at(PullState::Selecting), Action::SelectInbox)
                }
            } else {
                self.fail(UNEXPECTED@)
            },
            Event::Identified => if self.state == PullState::Identifying {
                (self.at(PullState::Selecting), Action::SelectInbox)
            } else {
                self.fail(UNEXPECTED@)
            },
            Event::Selected => if self.state == PullState::Selecting {
                if self.hint == RetrievalModeHint::PrimarySearchBroken {
                    (self.at(PullState::Listing), Action::Search(SearchQuery::All))
                } else {
                    (self.at(PullState::Searching), Action::Search(SearchQuery::SubjectMarker))
                }
            } else {
                self.fail(UNEXPECTED@)
            },
            Event::SearchResult(ids) => if self.state == PullState::Searching {
                if ids.len() > 0 {
                    (
                        Session {
                            state: PullState::FoundViaPrimary,
                            hint: if self.hint == RetrievalModeHint::PrimarySearchBroken {
                                RetrievalModeHint::PrimarySearchBroken
                            } else {
                                RetrievalModeHint::PrimarySearchWorks
                            },
                            pending: Seq::empty(),
                        },
                        Action::Fetch(seq![max_id(ids)]),
                    )
                } else {
                    (self.at(PullState::Listing), Action::Search(SearchQuery::All))
                }
            } else if self.state == PullState::Listing {
                Session { pending: descending(ids), ..self }.next_batch()
            } else {
                self.fail(UNEXPECTED@)
            },
            Event::Fetched(messages) => if self.state == PullState::FoundViaPrimary {
                if messages.len() == 0 {
                    self.fail(NO_MESSAGE@)
                } else {
                    self.deliver(messages[0].body)
                }
            } else if self.state == PullState::FallbackScanning {
                match best_match(messages) {
                    Some(at) => Session {
                        hint: RetrievalModeHint::PrimarySearchBroken,
                        ..self
                    }.deliver(messages[at].body),
                    None => self.next_batch(),
                }
            } else {
                self.fail(UNEXPECTED@)
            },
        }
    }
}

/// How a retrieval starts: with the connection, or, where the profile or the
/// secret is missing, not at all.
pub open spec fn begin_with(config: Option<SyncConfig>, has_password: bool) -> (Session, Action) {
    match config {
        Some(c) => if has_password {
            (
                Session { state: PullState::Connecting, hint: c.retrieval_hint, pending: Seq::empty() },
                Action::Connect(c.imap_encryption),
            )
        } else {
            (
                Session { state: PullState::Done, hint: c.retrieval_hint, pending: Seq::empty() },
                Action::Finish(Err(Failure::ConfigMissing)),
            )
        },
        None => (
            Session {
                state: PullState::Done,
                hint: RetrievalModeHint::Unknown,
                pending: Seq::empty(),
            },
            Action::Finish(Err(Failure::ConfigMissing)),
        ),
    }
}

impl SearchQuery {
    /// The search key that is sent to the server.
    pub open spec fn key(self) -> Seq<char> {
        match self {
            SearchQuery::SubjectMarker => "SUBJECT "@ + SYNC_MARKER@,
            SearchQuery::All => "ALL"@,
        }
    }

    /// The search key that is sent to the server.
    pub fn text(&self) -> (key: String)
        ensures
            key@ == self.key(),
    {
        match self {
            SearchQuery::SubjectMarker => {
                let mut key = String::from_str("SUBJECT ");
                key.append(SYNC_MARKER);
                key
            },
            SearchQuery::All => String::from_str("ALL"),
        }
    }
}

/// `<[u32]>::sort` of std: the same identifiers, each as often as before, in
/// ascending order.
#[verifier::external_body]
fn sort_ids(ids: &mut Vec<u32>)
    ensures
        sorted_by(final(ids)@, |a: u32, b: u32| a <= b),
        final(ids)@.to_multiset() == old(ids)@.to_multiset(),
{
    ids.sort();
}

/// The identifiers, highest first.
pub fn sort_descending(ids: Vec<u32>) -> (sorted: Vec<u32>)
    ensures
        sorted@ == descending(ids@),
{
    let mut ascending = ids;
    sort_ids(&mut ascending);
    let n = ascending.len();
    let mut sorted: Vec<u32> = Vec::new();
    let mut i: usize = n;
    while i > 0
        invariant
            0 <= i <= n,
            n == ascending@.len(),
            sorted@.len() == n - i,
            forall|k: int| 0 <= k < sorted@.len() ==> sorted@[k] == ascending@[n - 1 - k],
        decreases i,
    {
        i -= 1;
        sorted.push(ascending[i]);
    }
    proof {
        let geq = |a: u32, b: u32| higher_first(a, b);
        assert(sorted@ =~= ascending@.reverse());
        ascending@.lemma_reverse_to_multiset();
        assert(total_ordering(geq));
        let leq = |a: u32, b: u32| a <= b;
        assert(sorted_by(ascending@, leq));
        assert forall|i: int, j: int| 0 <= i < j < sorted@.len() implies #[trigger] geq(
            sorted@[i],
            sorted@[j],
        ) by {
            assert(leq(ascending@[n - 1 - j], ascending@[n - 1 - i]));
        }
        assert(sorted_by(sorted@, geq));
        ids@.lemma_sort_by_ensures(geq);
        lemma_sorted_unique(sorted@, ids@.sort_by(geq), geq);
    }
    sorted
}

/// The highest of the identifiers.
pub fn highest(ids: &Vec<u32>) -> (id: u32)
    ensures
        id == max_id(ids@),
{
    let mut id: u32 = 0;
    let mut i: usize = 0;
    while i < ids.len()
        invariant
            0 <= i <= ids@.len(),
            id == max_id(ids@.take(i as int)),
        decreases ids@.len() - i,
    {
        proof {
            assert(ids@.take(i as int + 1).drop_last() =~= ids@.take(i as int));
        }
        if ids[i] > id {
            id = ids[i];
        }
        i += 1;
    }
    proof {
        assert(ids@.take(ids@.len() as int) =~= ids@);
    }
    id
}

/// Whether a fetched message is a snapshot.
pub fn carries_snapshot(body: &[u8]) -> (found: bool)
    ensures
        found == is_snapshot(body@),
{
    match mail_subject(body) {
        Some(subject) => starts_with_marker(subject.as_str()),
        None => false,
    }
}

/// The place of the snapshot with the highest identifier among fetched
/// messages.
pub fn find_best_match(messages: &Vec<FetchedMessage>) -> (found: Option<usize>)
    ensures
        match found {
            Some(at) => best_match(fetched_of(messages@)) == Some(at as int) && at
                < messages@.len(),
            None => best_match(fetched_of(messages@)) is None,
        },
{
    let ghost all = fetched_of(messages@);
    let mut found: Option<usize> = None;
    let mut i: usize = 0;
    while i < messages.len()
        invariant
            0 <= i <= messages@.len(),
            all == fetched_of(messages@),
            match found {
                Some(at) => best_match(all.take(i as int)) == Some(at as int) && at < i,
                None => best_match(all.take(i as int)) is None,
            },
        decreases messages@.len() - i,
    {
        proof {
            assert(all.take(i as int + 1).drop_last() =~= all.take(i as int));
            assert(all.take(i as int + 1)[i as int] == messages@[i as int]@);
            if found is Some {
                assert(all.take(i as int + 1)[found->0 as int] == messages@[found->0 as int]@);
            }
        }
        if carries_snapshot(messages[i].body.as_slice()) {
            let better = match found {
                Some(at) => messages[at].id < messages[i].id,
                None => true,
            };
            if better {
                found = Some(i);
            }
        }
        i += 1;
    }
    proof {
        assert(all.take(messages@.len() as int) =~= all);
    }
    found
}

/// The identifiers of a fetch as the sequence set that is sent to the
/// server: their decimal forms, with commas between them.
pub open spec fn sequence_set_text(ids: Seq<u32>) -> Seq<char>
    decreases ids.len(),
{
    if ids.len() == 0 {
        Seq::empty()
    } else if ids.len() == 1 {
        decimal_text(ids[0] as nat)
    } else {
        sequence_set_text(ids.drop_last()) + seq![','] + decimal_text(ids.last() as nat)
    }
}

/// The identifiers of a fetch as the sequence set that is sent to the
/// server.
pub fn sequence_set(ids: &Vec<u32>) -> (text: String)
    ensures
        text@ == sequence_set_text(ids@),
{
    let mut chars: Vec<char> = Vec::new();
    let mut i: usize = 0;
    while i < ids.len()
        invariant
            0 <= i <= ids@.len(),
            chars@ == sequence_set_text(ids@.take(i as int)),
        decreases ids@.len() - i,
    {
        proof {
            assert(ids@.take(i as int + 1).drop_last() =~= ids@.take(i as int));
        }
        if i > 0 {
            chars.push(',');
        }
        let mut number = decimal(ids[i] as u64);
        chars.append(&mut number);
        i += 1;
    }
    proof {
        assert(ids@.take(ids@.len() as int) =~= ids@);
    }
    string_of(&chars)
}

impl Syncer {
    /// Starts a retrieval through the account of a profile. The machine
    /// takes up what the profile knows of the server's subject search.
    pub fn begin(sync_config: Option<&SyncConfig>, has_password: bool) -> (started: (
        Syncer,
        PullAction,
    ))
        ensures
            (started.0@, started.1@) == begin_with(
                match sync_config {
                    Some(c) => Some(*c),
                    None => None,
                },
                has_password,
            ),
    {
        match sync_config {
            Some(config) => if has_password {
                (
                    Syncer {
                        state: PullState::Connecting,
                        hint: config.retrieval_hint,
                        pending: Vec::new(),
                    },
                    PullAction::Connect(config.imap_encryption),
                )
            } else {
                (
                    Syncer {
                        state: PullState::Done,
                        hint: config.retrieval_hint,
                        pending: Vec::new(),
                    },
                    PullAction::Finish(Err(SyncError::ConfigMissing)),
                )
            },
            None => (
                Syncer {
                    state: PullState::Done,
                    hint: RetrievalModeHint::Unknown,
                    pending: Vec::new(),
                },
                PullAction::Finish(Err(SyncError::ConfigMissing)),
            ),
        }
    }

    /// Ends the retrieval.
    fn finish(&mut self, result: Result<Option<SyncData>, SyncError>) -> (action: PullAction)
        ensures
            (final(self)@, action@) == old(self)@.finish(
                match result {
                    Ok(Some(data)) => Ok(Some(data@)),
                    Ok(None) => Ok(None),
                    Err(e) => Err(e@),
                },
            ),
    {
        self.state = PullState::Done;
        self.pending = Vec::new();
        PullAction::Finish(result)
    }

    /// Ends the retrieval with a transport failure at the current step.
    fn fail(&mut self, cause: String) -> (action: PullAction)
        ensures
            (final(self)@, action@) == old(self)@.fail(cause@),
    {
        let stage = match self.state {
            PullState::Connecting => ProtocolStage::Connect,
            PullState::LoggingIn => ProtocolStage::Login,
            PullState::Authenticated => ProtocolStage::Capabilities,
            PullState::Identifying => ProtocolStage::Identify,
            PullState::Selecting => ProtocolStage::Select,
            PullState::Searching => ProtocolStage::Search,
            PullState::Listing => ProtocolStage::Search,
            PullState::FoundViaPrimary => ProtocolStage::Fetch,
            PullState::FallbackScanning => ProtocolStage::Fetch,
            PullState::Done => ProtocolStage::Finished,
        };
        self.finish(Err(SyncError::TransportFailure(stage, cause)))
    }

    /// Ends the retrieval with what a found message holds.
    fn deliver(&mut self, body: &[u8]) -> (action: PullAction)
        ensures
            (final(self)@, action@) == old(self)@.deliver(body@),
    {
        match Syncer::get_data(body) {
            Ok(data) => self.finish(Ok(Some(data))),
            Err(e) => self.finish(Err(e)),
        }
    }

    /// Goes on with the scan.
    fn next_batch(&mut self) -> (action: PullAction)
        ensures
            (final(self)@, action@) == old(self)@.next_batch(),
    {
        if self.pending.len() == 0 {
            return self.finish(Ok(None));
        }
        let n = if self.pending.len() < BATCH_SIZE {
            self.pending.len()
        } else {
            BATCH_SIZE
        };
        let rest = self.pending.split_off(n);
        let mut batch = rest;
        std::mem::swap(&mut self.pending, &mut batch);
        self.state = PullState::FallbackScanning;
        PullAction::Fetch(batch)
    }
}

impl SyncData {
    /// Takes the session's answer to the last action and says what to do
    /// next. The retrieval is over when the action is `Finish`: it holds the
    /// snapshot, `None` where the mailbox has none, or the failure.
    pub fn pull_data(syncer: &mut Syncer, event: PullEvent) -> (action: PullAction)
        ensures
            (final(syncer)@, action@) == old(syncer)@.step(event@),
    {
        match event {
            PullEvent::Failed(cause) => syncer.fail(cause),
            PullEvent::Connected => if syncer.state == PullState::Connecting {
                syncer.state = PullState::LoggingIn;
                PullAction::Login
            } else {
                syncer.fail(String::from_str(UNEXPECTED))
            },
            PullEvent::LoggedIn => if syncer.state == PullState::LoggingIn {
                syncer.state = PullState::Authenticated;
                PullAction::QueryCapabilities
            } else {
                syncer.fail(String::from_str(UNEXPECTED))
            },
            PullEvent::LoginRejected => if syncer.state == PullState::LoggingIn {
                syncer.finish(Err(SyncError::AuthFailed))
            } else {
                syncer.fail(String::from_str(UNEXPECTED))
            },
            PullEvent::Capabilities(has_id) => if syncer.state == PullState::Authenticated {
                if has_id {
                    syncer.state = PullState::Identifying;
                    PullAction::Identify
                } else {
                    syncer.state = PullState::Selecting;
                    PullAction::SelectInbox
                }
            } else {
                syncer.fail(String::from_str(UNEXPECTED))
            },
            PullEvent::Identified => if syncer.state == PullState::Identifying {
                syncer.state = PullState::Selecting;
                PullAction::SelectInbox
            } else {
                syncer.fail(String::from_str(UNEXPECTED))
            },
            PullEvent::Selected => if syncer.state == PullState::Selecting {
                if syncer.hint == RetrievalModeHint::PrimarySearchBroken {
                    syncer.state = PullState::Listing;
                    PullAction::Search(SearchQuery::All)
                } else {
                    syncer.state = PullState::Searching;
                    PullAction::Search(SearchQuery::SubjectMarker)
                }
            } else {
                syncer.fail(String::from_str(UNEXPECTED))
            },
            PullEvent::SearchResult(ids) => if syncer.state == PullState::Searching {
                if ids.len() > 0 {
                    let mut batch: Vec<u32> = Vec::new();
                    batch.push(highest(&ids));
                    syncer.state = PullState::FoundViaPrimary;
                    if syncer.hint != RetrievalModeHint::PrimarySearchBroken {
                        syncer.hint = RetrievalModeHint::PrimarySearchWorks;
                    }
                    syncer.pending = Vec::new();
                    PullAction::Fetch(batch)
                } else {
                    syncer.state = PullState::Listing;
                    PullAction::Search(SearchQuery::All)
                }
            } else if syncer.state == PullState::Listing {
                syncer.pending = sort_descending(ids);
                syncer.next_batch()
            } else {
                syncer.fail(String::from_str(UNEXPECTED))
            },
            PullEvent::Fetched(messages) => if syncer.state == PullState::FoundViaPrimary {
                if messages.len() == 0 {
                    syncer.fail(String::from_str(NO_MESSAGE))
                } else {
                    syncer.deliver(messages[0].body.as_slice())
                }
            } else if syncer.state == PullState::FallbackScanning {
                match find_best_match(&messages) {
                    Some(at) => {
                        syncer.hint = RetrievalModeHint::PrimarySearchBroken;
                        syncer.deliver(messages[at].body.as_slice())
                    },
                    None => syncer.next_batch(),
                }
            } else {
                syncer.fail(String::from_str(UNEXPECTED))
            },
        }
    }
}

} // verus!
