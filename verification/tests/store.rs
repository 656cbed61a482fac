use wordmem::db::{Db, CREATE_TABLE};
use wordmem::merge::{plan_upsert, UpsertAction};
use wordmem::model::{Column, Word};
use wordmem::sql_value::{prepare_sql_value, SqlVal};
use wordmem::storage::{del_word, init_db};
use wordmem::word_manager::{
    export_words, import_words, is_yes, read_one_word, take_word, TakenLine,
};

fn rows(conn: &sqlite::Connection, statement: &str) -> Vec<Vec<Column>> {
    let mut found = Vec::new();
    conn.iterate(statement, |pairs| {
        found.push(
            pairs.iter().map(|p| (p.0.to_string(), p.1.map(|v| v.to_string()))).collect(),
        );
        true
    })
    .unwrap();
    found
}

fn one_word(conn: &sqlite::Connection, statement: &str) -> Option<Word> {
    rows(conn, statement).first().map(|row| Word::from_sqlite_pairs(row).unwrap())
}

fn seconds(text: &str) -> i64 {
    chrono::NaiveDateTime::parse_from_str(text, "%Y-%m-%d %H:%M:%S").unwrap().and_utc().timestamp()
}

fn new_mem() -> sqlite::Connection {
    let conn = sqlite::Connection::open(":memory:").unwrap();
    conn.execute(init_db(false).unwrap()).unwrap();
    conn
}

#[test]
fn test_crud() {
    let db = new_mem();

    // create
    let mut word_new = Word {
        id: None,
        name: "name".to_string(),
        meanings: "m1;m2;m3".to_string(),
        period_days: 3,
        last_visit: seconds("2022-03-21 09:09:33"),
        next_visit: seconds("2022-03-22 09:09:33"),
    };
    db.execute(Db::insert_word(&word_new)).unwrap();
    let mut word = one_word(&db, &Db::get_by_col("name", SqlVal::Text("name"))).unwrap();
    word_new.id = word.id;
    assert_eq!(word, word_new);

    // update
    word.name = "world".to_string();
    db.execute(Db::update_word(&word)).unwrap();
    let word = one_word(&db, &Db::get_by_col("id", SqlVal::Integer(word.id.unwrap()))).unwrap();
    assert_eq!(word.name, "world".to_string());

    // delete
    db.execute(Db::del_word(word.id.unwrap())).unwrap();
    let word = one_word(&db, &Db::get_by_col("id", SqlVal::Integer(word.id.unwrap())));
    assert_eq!(word, None);
}

#[test]
fn values_are_written_for_a_statement() {
    assert_eq!(SqlVal::Null.repr(), "NULL");
    assert_eq!(SqlVal::Integer(0).repr(), "0");
    assert_eq!(SqlVal::Integer(-42).repr(), "-42");
    assert_eq!(SqlVal::Integer(i64::MIN).repr(), "-9223372036854775808");
    assert_eq!(SqlVal::Text("run").repr(), "'run'");
    assert_eq!(SqlVal::Text("it's; DROP TABLE word; --'").repr(), "'its; DROP TABLE word; --'");
    assert_eq!(SqlVal::Text("").repr(), "''");
    assert_eq!(SqlVal::Blob(&[0x00, 0x01, 0xab, 0xff, 0x10]).repr(), "x'0001abff10'");
    assert_eq!(SqlVal::Blob(&[]).repr(), "x''");
    assert_eq!(SqlVal::Blob(b"Hello world!").to_string(), "x'48656c6c6f20776f726c6421'");
    assert_eq!(prepare_sql_value("''a'b''"), "ab");
    assert_eq!(prepare_sql_value("plain"), "plain");
}

#[test]
fn statements_are_written_out() {
    let word = Word {
        id: Some(7),
        name: "run".to_string(),
        meanings: "jog;sprint".to_string(),
        period_days: 16,
        last_visit: 100,
        next_visit: -200,
    };
    assert_eq!(
        Db::insert_word(&word),
        "INSERT INTO word (name, meanings, period_days, last_visit, next_visit) VALUES ('run', 'jog;sprint', 16, 100, -200);"
    );
    assert_eq!(
        Db::update_word(&word),
        "UPDATE word SET name='run', meanings='jog;sprint', period_days=16, last_visit=100, next_visit=-200 WHERE id = 7;"
    );
    assert_eq!(Db::del_word(7), "DELETE FROM word WHERE id = 7;");
    assert_eq!(del_word(-3), "DELETE FROM word WHERE id = -3;");
    assert_eq!(
        Db::get_by_col("name", SqlVal::Text("o'clock")),
        "SELECT * FROM word WHERE name = 'oclock' LIMIT 1;"
    );
    assert_eq!(
        Db::get_one_word_to_test(1000),
        "SELECT * FROM word WHERE (next_visit - 64800) <= 1000 ORDER BY next_visit ASC LIMIT 1;"
    );
    assert_eq!(Db::clear_words(), "DELETE FROM word;");
    assert_eq!(
        Db::upsert_by_name(None, &word, false),
        Some(
            "INSERT INTO word (name, meanings, period_days, last_visit, next_visit) VALUES ('run', 'jog;sprint', 16, 100, -200);"
                .to_string()
        )
    );
    let remote = Word { id: None, meanings: "dash".to_string(), last_visit: 5, ..word.clone() };
    assert_eq!(
        Db::upsert_by_name(Some(&word), &remote, false),
        Some(
            "UPDATE word SET name='run', meanings='jog;sprint;dash', period_days=16, last_visit=100, next_visit=-200 WHERE id = 7;"
                .to_string()
        )
    );
    assert_eq!(Db::upsert_by_name(Some(&word), &word, false), None);
    assert_eq!(
        Db::upsert_by_name(Some(&word), &remote, true),
        Some(
            "UPDATE word SET name='run', meanings='jog;sprint;dash', period_days=16, last_visit=5, next_visit=-200 WHERE id = 7;"
                .to_string()
        )
    );
    assert_eq!(Db::get_all_words(), "SELECT * FROM word");
    assert_eq!(Db::get_default_db_name(), "wordmem.sqlite");
    assert_eq!(Db::db_path_under("/opt/wordmem"), "/opt/wordmem/wordmem.sqlite");
    assert_eq!(init_db(true), None);
    assert_eq!(init_db(false), Some(CREATE_TABLE.to_string()));
}

#[test]
fn the_word_that_is_due_first_is_read() {
    let db = new_mem();
    let word = |name: &str, next_visit: i64| Word {
        id: None,
        name: name.to_string(),
        meanings: "m".to_string(),
        period_days: 1,
        last_visit: 0,
        next_visit,
    };
    db.execute(Db::insert_word(&word("late", 300_000))).unwrap();
    db.execute(Db::insert_word(&word("soon", 100_000))).unwrap();
    db.execute(Db::insert_word(&word("sooner", 90_000))).unwrap();
    assert_eq!(one_word(&db, &Db::get_one_word_to_test(0)), None);
    assert_eq!(one_word(&db, &Db::get_one_word_to_test(25_199)), None);
    assert_eq!(one_word(&db, &Db::get_one_word_to_test(25_200)).unwrap().name, "sooner");
    assert_eq!(one_word(&db, &Db::get_one_word_to_test(1_000_000)).unwrap().name, "sooner");
    assert_eq!(rows(&db, &Db::get_all_words()).len(), 3);
    db.execute(Db::clear_words()).unwrap();
    assert_eq!(rows(&db, &Db::get_all_words()).len(), 0);
}

#[test]
fn a_snapshot_is_merged_into_a_database() {
    let local = new_mem();
    let remote = new_mem();
    let word = |name: &str, meanings: &str, period: u16, last: i64| Word {
        id: None,
        name: name.to_string(),
        meanings: meanings.to_string(),
        period_days: period,
        last_visit: last,
        next_visit: last + period as i64 * 86400,
    };
    local.execute(Db::insert_word(&word("run", "jog", 8, 1000))).unwrap();
    remote.execute(Db::insert_word(&word("run", "jog;sprint", 2, 5000))).unwrap();
    remote.execute(Db::insert_word(&word("walk", "stroll", 4, 6000))).unwrap();
    for pass in 0..2 {
        for row in rows(&remote, &Db::get_all_words()) {
            let incoming = Word::from_sqlite_pairs(&row).unwrap();
            let known = one_word(&local, &Db::get_by_col("name", SqlVal::Text(&incoming.name)));
            match plan_upsert(known.as_ref(), &incoming, false) {
                UpsertAction::Insert(taken) => local.execute(Db::insert_word(&taken)).unwrap(),
                UpsertAction::Update(changed) => local.execute(Db::update_word(&changed)).unwrap(),
                UpsertAction::Keep => assert_eq!(pass, 1),
            }
        }
        let words: Vec<Word> = rows(&local, &Db::get_all_words())
            .iter()
            .map(|row| Word::from_sqlite_pairs(row).unwrap())
            .collect();
        assert_eq!(
            words,
            vec![
                Word { id: Some(1), ..word("run", "jog;sprint", 8, 1000) },
                Word { id: Some(2), ..word("walk", "stroll", 4, 6000) },
            ]
        );
    }
}

#[test]
fn lines_are_read_as_words() {
    let taken = |name: &str, meanings: &str| {
        TakenLine::Taken(Word {
            id: None,
            name: name.to_string(),
            meanings: meanings.to_string(),
            period_days: 1,
            last_visit: 50,
            next_visit: 50 + 86400,
        })
    };
    assert_eq!(
        read_one_word(Some("right=the opposite of left;correct;"), 50),
        taken("right", "the opposite of left;correct")
    );
    assert_eq!(read_one_word(Some("  a = b=c ; B=C \n"), 50), taken("a", "b=c"));
    assert_eq!(read_one_word(None, 50), TakenLine::End);
    assert_eq!(read_one_word(Some(""), 50), TakenLine::End);
    assert_eq!(read_one_word(Some("  \t"), 50), TakenLine::End);
    assert_eq!(read_one_word(Some("no separator"), 50), TakenLine::Unrecognized);
    assert_eq!(read_one_word(Some("=meaning"), 50), TakenLine::Empty);
    assert_eq!(read_one_word(Some("word="), 50), TakenLine::Empty);
    assert_eq!(read_one_word(Some("word =  "), 50), TakenLine::Empty);
    assert_eq!(read_one_word(Some("word = ; ;"), 50), TakenLine::Empty);
    assert_eq!(read_one_word(Some("="), 50), TakenLine::Empty);
}

#[test]
fn an_entered_word_is_inserted_or_added_to() {
    let word = |id: Option<i64>, meanings: &str, period: u16| Word {
        id,
        name: "run".to_string(),
        meanings: meanings.to_string(),
        period_days: period,
        last_visit: 1,
        next_visit: 2,
    };
    let entered = word(None, "sprint; Jog", 1);
    assert_eq!(take_word(None, &entered), UpsertAction::Insert(word(None, "sprint; Jog", 1)));
    assert_eq!(
        take_word(Some(&word(Some(3), " jog ", 16)), &entered),
        UpsertAction::Update(word(Some(3), "jog;sprint", 16))
    );
}

#[test]
fn yes_is_told_from_no() {
    assert!(is_yes("y"));
    assert!(is_yes(" YES\n"));
    assert!(is_yes("Yes"));
    assert!(!is_yes("N"));
    assert!(!is_yes(""));
    assert!(!is_yes("yess"));
    assert!(!is_yes("y e s"));
}

#[test]
fn words_are_imported_and_exported_as_pairs() {
    let pairs = vec![
        (" run ".to_string(), "jog; sprint;jog".to_string()),
        ("walk".to_string(), "".to_string()),
    ];
    let words = import_words(&pairs, 1000);
    assert_eq!(words.len(), 2);
    assert_eq!(words[0], Word::from_name_and_meanings(" run ", "jog; sprint;jog", 1000));
    assert_eq!(words[0].name, "run");
    assert_eq!(words[0].meanings, "jog;sprint");
    assert_eq!(words[1].meanings, "");
    assert_eq!(
        export_words(&words),
        vec![("run".to_string(), "jog;sprint".to_string()), ("walk".to_string(), "".to_string())]
    );
    assert_eq!(import_words(&Vec::new(), 0), Vec::new());
}
