use wordmem::error::SyncError;
use wordmem::merge::{copy_word, key_of_name, plan_upsert, Store, UpsertAction};
use wordmem::merger::{MergeAction, MergeEvent, MergeState, Merger};
use wordmem::model::{meaning_entries, Word};

fn word(name: &str, meanings: &str) -> Word {
    Word {
        id: None,
        name: name.to_string(),
        meanings: meanings.to_string(),
        period_days: 1,
        last_visit: 100,
        next_visit: 86500,
    }
}

fn scheduled(id: i64, name: &str, meanings: &str, period: u16, last: i64, next: i64) -> Word {
    Word {
        id: Some(id),
        name: name.to_string(),
        meanings: meanings.to_string(),
        period_days: period,
        last_visit: last,
        next_visit: next,
    }
}

fn keys(meanings: &str) -> Vec<String> {
    let mut keys: Vec<String> = meaning_entries(meanings).into_iter().map(|e| e.key).collect();
    keys.sort();
    keys
}

#[test]
fn merging_adds_the_meanings_that_are_missing() {
    let mut local = Store { words: vec![word("run", "jog")] };
    local.merge(&vec![word("run", "jog;sprint")]);
    assert_eq!(local.words.len(), 1);
    assert_eq!(keys(&local.words[0].meanings), vec!["jog".to_string(), "sprint".to_string()]);
    assert_eq!(local.words[0].meanings, "jog;sprint");
}

#[test]
fn merging_twice_is_merging_once() {
    let remote = vec![
        scheduled(1, "run", " Jog ; sprint;;jog", 4, 10, 20),
        scheduled(2, "walk", "stroll; amble ", 8, 30, 40),
        scheduled(3, "RUN ", "dash", 2, 50, 60),
        scheduled(4, "fly", "", 1, 70, 80),
    ];
    let mut once = Store {
        words: vec![scheduled(7, "Run", "jog", 16, 1000, 2000), scheduled(8, "swim", "crawl", 2, 1, 2)],
    };
    once.merge(&remote);
    let mut twice = once.clone();
    twice.merge(&remote);
    assert_eq!(twice, once);
    assert_eq!(
        once.words,
        vec![
            scheduled(7, "Run", "jog;sprint;dash", 16, 1000, 2000),
            scheduled(8, "swim", "crawl", 2, 1, 2),
            Word { id: None, ..scheduled(2, "walk", "stroll; amble ", 8, 30, 40) },
            Word { id: None, ..scheduled(4, "fly", "", 1, 70, 80) },
        ]
    );
}

#[test]
fn merging_into_an_empty_store_twice() {
    let remote = vec![word("a", " x ; y "), word("A", "z"), word("b", "")];
    let mut once = Store::new();
    once.merge(&remote);
    let mut twice = once.clone();
    twice.merge(&remote);
    assert_eq!(twice, once);
    assert_eq!(once.words.len(), 2);
    assert_eq!(once.words[0].meanings, "x;y;z");
}

#[test]
fn merging_keeps_the_local_schedule() {
    let mut local = Store { words: vec![scheduled(7, "run", "jog", 16, 1000, 2000)] };
    local.merge(&vec![scheduled(1, "run", "sprint", 2, 5, 6)]);
    assert_eq!(local.words, vec![scheduled(7, "run", "jog;sprint", 16, 1000, 2000)]);
}

#[test]
fn a_word_that_gains_nothing_is_left_as_it_is() {
    let mut local = Store { words: vec![scheduled(7, "run", " Jog ;  SPRINT", 16, 1000, 2000)] };
    local.merge(&vec![scheduled(1, "run", "sprint;jog; ;JOG", 2, 5, 6)]);
    assert_eq!(local.words, vec![scheduled(7, "run", " Jog ;  SPRINT", 16, 1000, 2000)]);
}

#[test]
fn the_spelling_that_was_seen_first_is_kept() {
    let mut local = Store { words: vec![word("run", "Jog")] };
    local.merge(&vec![word("run", "JOG;Sprint;sprint")]);
    assert_eq!(local.words[0].meanings, "Jog;Sprint");
}

#[test]
fn an_unknown_word_is_taken_as_it_is() {
    let mut local = Store::new();
    local.merge(&vec![scheduled(5, "run", " jog ; sprint;jog", 32, 111, 222)]);
    assert_eq!(
        local.words,
        vec![Word { id: None, ..scheduled(5, "run", " jog ; sprint;jog", 32, 111, 222) }]
    );
}

#[test]
fn names_are_found_whatever_their_case() {
    let store = Store { words: vec![word("Walk", "a"), word(" run ", "b"), word("RUN", "c")] };
    assert_eq!(store.get_by_name("run"), Some(1));
    assert_eq!(store.get_by_name("  WALK"), Some(0));
    assert_eq!(store.get_by_name("fly"), None);
    assert_eq!(key_of_name("  RuN "), "run");
}

#[test]
fn the_visits_are_taken_over_only_when_asked_for() {
    let known = scheduled(7, "run", "jog", 16, 1000, 2000);
    let remote = scheduled(1, "run", "jog", 2, 5, 6);
    let mut store = Store { words: vec![copy_word(&known)] };
    store.upsert_by_name(&remote, false);
    assert_eq!(store.words, vec![copy_word(&known)]);
    store.upsert_by_name(&remote, true);
    assert_eq!(store.words, vec![scheduled(7, "run", "jog", 16, 5, 6)]);
}

#[test]
fn what_is_planned_for_a_remote_word() {
    let known = scheduled(7, "run", "jog", 16, 1000, 2000);
    let remote = scheduled(1, "run", "sprint", 2, 5, 6);
    assert_eq!(
        plan_upsert(None, &remote, false),
        UpsertAction::Insert(Word { id: None, ..copy_word(&remote) })
    );
    assert_eq!(
        plan_upsert(Some(&known), &remote, false),
        UpsertAction::Update(scheduled(7, "run", "jog;sprint", 16, 1000, 2000))
    );
    assert_eq!(
        plan_upsert(Some(&known), &remote, true),
        UpsertAction::Update(scheduled(7, "run", "jog;sprint", 16, 5, 6))
    );
    assert_eq!(plan_upsert(Some(&known), &known, false), UpsertAction::Keep);
    assert_eq!(
        plan_upsert(Some(&known), &scheduled(1, "run", " JOG", 2, 5, 6), true),
        UpsertAction::Update(scheduled(7, "run", "jog", 16, 5, 6))
    );
}

fn drive(store: &mut Store, remote: Vec<Word>, writes_allowed: usize) -> (Result<(), SyncError>, usize) {
    let mut writes = 0;
    let (mut merger, mut action) = Merger::begin(remote);
    loop {
        let event = match action {
            MergeAction::Finish(result) => {
                assert_eq!(merger.state, MergeState::Done);
                return (result, writes);
            }
            MergeAction::Lookup(name) => {
                MergeEvent::Found(store.get_by_name(&name).map(|at| store.words[at].clone()))
            }
            MergeAction::Write(change) => {
                if writes == writes_allowed {
                    MergeEvent::Failed
                } else {
                    writes += 1;
                    match change {
                        UpsertAction::Insert(word) => store.words.push(word),
                        UpsertAction::Update(word) => {
                            let at = store.get_by_name(&word.name).unwrap();
                            store.words[at] = word;
                        }
                        UpsertAction::Keep => unreachable!(),
                    }
                    MergeEvent::Written
                }
            }
        };
        action = merger.step(event);
    }
}

fn snapshot() -> Vec<Word> {
    vec![
        scheduled(1, "run", " Jog ; sprint;;jog", 4, 10, 20),
        scheduled(2, "swim", "CRAWL", 8, 30, 40),
        scheduled(3, "walk", "stroll; amble ", 8, 30, 40),
        scheduled(4, "RUN ", "dash", 2, 50, 60),
        scheduled(5, "fly", "", 1, 70, 80),
    ]
}

fn local_store() -> Store {
    Store {
        words: vec![scheduled(7, "Run", "jog", 16, 1000, 2000), scheduled(8, "swim", "crawl", 2, 1, 2)],
    }
}

#[test]
fn a_store_is_merged_into_word_by_word() {
    let mut stepwise = local_store();
    let (result, writes) = drive(&mut stepwise, snapshot(), usize::MAX);
    assert_eq!(result, Ok(()));
    assert_eq!(writes, 4);
    let mut at_once = local_store();
    at_once.merge(&snapshot());
    assert_eq!(stepwise, at_once);
    let (result, writes) = drive(&mut stepwise, snapshot(), usize::MAX);
    assert_eq!(result, Ok(()));
    assert_eq!(writes, 0);
    assert_eq!(stepwise, at_once);
}

#[test]
fn a_merge_that_stopped_early_is_reported_with_its_count() {
    let mut store = local_store();
    assert_eq!(drive(&mut store, snapshot(), 0), (Err(SyncError::PartialMerge(0)), 0));
    assert_eq!(store, local_store());
    let mut store = local_store();
    assert_eq!(drive(&mut store, snapshot(), 1), (Err(SyncError::PartialMerge(2)), 1));
    assert_eq!(store.words[0].meanings, "jog;sprint");
    assert_eq!(store.words.len(), 2);
    let mut store = local_store();
    assert_eq!(drive(&mut store, snapshot(), 3), (Err(SyncError::PartialMerge(4)), 3));
    assert_eq!(store.words.len(), 3);
    assert_eq!(store.words[0].meanings, "jog;sprint;dash");
}

#[test]
fn a_store_that_fails_at_a_lookup_stops_the_merge() {
    let (mut merger, action) = Merger::begin(snapshot());
    assert_eq!(action, MergeAction::Lookup("run".to_string()));
    assert_eq!(merger.step(MergeEvent::Failed), MergeAction::Finish(Err(SyncError::PartialMerge(0))));
    assert_eq!(merger.step(MergeEvent::Written), MergeAction::Finish(Err(SyncError::PartialMerge(0))));
}

#[test]
fn an_answer_out_of_turn_stops_the_merge() {
    let (mut merger, _) = Merger::begin(snapshot());
    assert_eq!(merger.step(MergeEvent::Written), MergeAction::Finish(Err(SyncError::PartialMerge(0))));
    let (mut merger, _) = Merger::begin(snapshot());
    let write = merger.step(MergeEvent::Found(None));
    assert_eq!(
        write,
        MergeAction::Write(UpsertAction::Insert(Word {
            id: None,
            ..scheduled(1, "run", " Jog ; sprint;;jog", 4, 10, 20)
        }))
    );
    assert_eq!(merger.state, MergeState::Writing);
    assert_eq!(
        merger.step(MergeEvent::Found(None)),
        MergeAction::Finish(Err(SyncError::PartialMerge(0)))
    );
}

#[test]
fn the_word_that_is_due_first_is_found() {
    let due = |name: &str, next_visit: i64| Word { next_visit, ..word(name, "m") };
    let store = Store {
        words: vec![due("late", 300_000), due("soon", 100_000), due("sooner", 90_000), due("tie", 90_000)],
    };
    assert_eq!(store.get_one_word_to_test(0), None);
    assert_eq!(store.get_one_word_to_test(25_199), None);
    assert_eq!(store.get_one_word_to_test(25_200), Some(2));
    assert_eq!(store.get_one_word_to_test(35_200), Some(2));
    assert_eq!(store.get_one_word_to_test(i64::MAX), Some(2));
    assert_eq!(Store::new().get_one_word_to_test(0), None);
    let store = Store { words: vec![due("edge", i64::MIN), due("far", i64::MAX)] };
    assert_eq!(store.get_one_word_to_test(i64::MIN), Some(0));
    assert_eq!(store.get_one_word_to_test(i64::MAX), Some(0));
}

#[test]
fn an_empty_snapshot_is_merged_at_once() {
    let (merger, action) = Merger::begin(Vec::new());
    assert_eq!(action, MergeAction::Finish(Ok(())));
    assert_eq!(merger.state, MergeState::Done);
}
