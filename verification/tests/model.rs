use wordmem::model::{
    get_number, get_period, get_val, meaning_entries, Column, MeaningEntry, RowError, Word,
};
use wordmem::revisit_planner::{
    get_init_period_days, get_last_period_days, get_next_period_days,
};
use wordmem::text::{
    chars_of, decimal, parse_digits, parse_i64, parse_u16, signed_decimal, split_chars, trim,
};

fn word(meanings: &str) -> Word {
    Word {
        id: Some(1),
        name: "Run".to_string(),
        meanings: meanings.to_string(),
        period_days: 4,
        last_visit: 1000,
        next_visit: 2000,
    }
}

fn row(cells: &[(&str, Option<&str>)]) -> Vec<Column> {
    cells.iter().map(|c| (c.0.to_string(), c.1.map(|v| v.to_string()))).collect()
}

fn chars(s: &str) -> Vec<char> {
    s.chars().collect()
}

#[test]
fn the_schedule_doubles_and_halves() {
    assert_eq!(get_init_period_days(), 1);
    let table = [1u16, 2, 4, 8, 16, 32, 64, 128];
    for i in 0..table.len() {
        let next = if i + 1 < table.len() { table[i + 1] } else { 128 };
        let last = if i > 0 { table[i - 1] } else { 1 };
        assert_eq!(get_next_period_days(table[i]), next);
        assert_eq!(get_last_period_days(table[i]), last);
    }
    assert_eq!(get_next_period_days(3), 6);
    assert_eq!(get_last_period_days(3), 1);
    assert_eq!(get_last_period_days(0), 0);
    assert_eq!(get_last_period_days(u16::MAX), 32767);
    assert_eq!(get_next_period_days(32767), 65534);
}

#[test]
fn meanings_are_normalised() {
    assert_eq!(Word::norm_meanings(" a ;b;; A ;c "), "a;b;c");
    assert_eq!(Word::norm_meanings("Jog;jog;JOG"), "Jog");
    assert_eq!(Word::norm_meanings(""), "");
    assert_eq!(Word::norm_meanings(" ; ;"), "");
    assert_eq!(Word::norm_meanings("the opposite of left;correct;"), "the opposite of left;correct");
    assert_eq!(Word::norm_meanings("Größe; GRÖSSE ;größe"), "Größe;GRÖSSE");
}

#[test]
fn meanings_are_kept_with_their_keys() {
    assert_eq!(
        meaning_entries(" Jog ;sprint;JOG"),
        vec![
            MeaningEntry { key: "jog".to_string(), shown: "Jog".to_string() },
            MeaningEntry { key: "sprint".to_string(), shown: "sprint".to_string() },
        ]
    );
    assert_eq!(meaning_entries(";"), Vec::new());
}

#[test]
fn merging_meanings_keeps_the_first_spelling() {
    let mut w = word("Jog; dash");
    w.merge_meanings("sprint;JOG; Dash ;run");
    assert_eq!(w, word("Jog;dash;sprint;run"));
    let mut w = word("a");
    w.merge_meanings("");
    assert_eq!(w, word("a"));
    let mut w = word("");
    w.merge_meanings("b; c");
    assert_eq!(w, word("b;c"));
}

#[test]
fn an_answer_must_list_all_meanings_and_no_other() {
    let w = word("jog; sprint");
    assert!(w.has_meanings("sprint;jog"));
    assert!(w.has_meanings(" SPRINT ; Jog;jog"));
    assert!(!w.has_meanings("jog"));
    assert!(!w.has_meanings("jog;sprint;dash"));
    assert!(!w.has_meanings(""));
    assert!(!w.has_meanings(";"));
    assert!(!word("").has_meanings(""));
    assert!(!word("").has_meanings("a"));
}

#[test]
fn the_name_is_compared_without_case() {
    let w = word("x");
    assert!(w.is_named("run"));
    assert!(w.is_named("  RUN "));
    assert!(!w.is_named("ran"));
    assert!(!w.is_named(""));
}

#[test]
fn a_test_moves_the_word_in_the_schedule() {
    let mut w = word("x");
    w.revisit(true, 1_000_000);
    assert_eq!(w.period_days, 8);
    assert_eq!(w.last_visit, 1_000_000);
    assert_eq!(w.next_visit, 1_000_000 + 8 * 86400);
    w.revisit(false, 2_000_000);
    assert_eq!(w.period_days, 4);
    assert_eq!(w.last_visit, 2_000_000);
    assert_eq!(w.next_visit, 2_000_000 + 4 * 86400);
    assert_eq!(w.name, "Run");
    assert_eq!(w.meanings, "x");
    assert_eq!(w.id, Some(1));
}

#[test]
fn a_taken_word_starts_the_schedule() {
    let w = Word::from_name_and_meanings("  right ", "the opposite of left; correct;", 500);
    assert_eq!(
        w,
        Word {
            id: None,
            name: "right".to_string(),
            meanings: "the opposite of left;correct".to_string(),
            period_days: 1,
            last_visit: 500,
            next_visit: 500 + 86400,
        }
    );
}

#[test]
fn meanings_are_changed_only_to_some() {
    let mut w = word("a;b");
    assert!(!w.change_meanings(" ; "));
    assert_eq!(w, word("a;b"));
    assert!(w.change_meanings(" c ;C;d"));
    assert_eq!(w, word("c;d"));
}

#[test]
fn a_row_is_read_as_a_word() {
    let cells = row(&[
        ("id", Some("12")),
        ("name", Some("run")),
        ("meanings", Some("jog;sprint")),
        ("period_days", Some("16")),
        ("last_visit", Some("1647853773")),
        ("next_visit", Some("-5")),
    ]);
    assert_eq!(
        Word::from_sqlite_pairs(&cells),
        Ok(Word {
            id: Some(12),
            name: "run".to_string(),
            meanings: "jog;sprint".to_string(),
            period_days: 16,
            last_visit: 1647853773,
            next_visit: -5,
        })
    );
}

#[test]
fn a_row_with_a_gap_is_no_word() {
    let full = [
        ("id", Some("12")),
        ("name", Some("run")),
        ("meanings", Some("jog")),
        ("period_days", Some("16")),
        ("last_visit", Some("1")),
        ("next_visit", Some("2")),
    ];
    for gap in 0..full.len() {
        let mut cells = full.to_vec();
        cells.remove(gap);
        assert_eq!(Word::from_sqlite_pairs(&row(&cells)), Err(RowError::Missing));
        let mut cells = full.to_vec();
        cells[gap].1 = None;
        assert_eq!(Word::from_sqlite_pairs(&row(&cells)), Err(RowError::Missing));
    }
    for number in [0usize, 3, 4, 5] {
        let mut cells = full.to_vec();
        cells[number].1 = Some("twelve");
        assert_eq!(Word::from_sqlite_pairs(&row(&cells)), Err(RowError::Malformed));
    }
    let mut cells = full.to_vec();
    cells[3].1 = Some("65536");
    assert_eq!(Word::from_sqlite_pairs(&row(&cells)), Err(RowError::Malformed));
    let mut cells = full.to_vec();
    cells[0].1 = Some("x");
    cells.remove(1);
    assert_eq!(Word::from_sqlite_pairs(&row(&cells)), Err(RowError::Malformed));
}

#[test]
fn the_last_column_of_a_name_counts() {
    let cells = row(&[("a", Some("1")), ("b", None), ("a", Some("2")), ("c", Some("x"))]);
    assert_eq!(get_val(&cells, "a"), Some("2".to_string()));
    assert_eq!(get_val(&cells, "b"), None);
    assert_eq!(get_val(&cells, "d"), None);
    assert_eq!(get_number(&cells, "a"), Ok(2));
    assert_eq!(get_number(&cells, "c"), Err(RowError::Malformed));
    assert_eq!(get_number(&cells, "b"), Err(RowError::Missing));
    assert_eq!(get_period(&cells, "a"), Ok(2));
    let cells = row(&[("a", Some("1")), ("a", None)]);
    assert_eq!(get_val(&cells, "a"), None);
    let cells = row(&[("n", Some("-9223372036854775808")), ("p", Some("-1"))]);
    assert_eq!(get_number(&cells, "n"), Ok(i64::MIN));
    assert_eq!(get_period(&cells, "p"), Err(RowError::Malformed));
}

#[test]
fn text_is_trimmed_and_split() {
    assert_eq!(chars_of("héllo"), chars("héllo"));
    assert_eq!(trim(&chars("  a b \t\n")), chars("a b"));
    assert_eq!(trim(&chars("\u{3000}x\u{a0}")), chars("x"));
    assert_eq!(trim(&chars("   ")), chars(""));
    assert_eq!(trim(&chars("")), chars(""));
    assert_eq!(split_chars(&chars("a;b;;c"), ';'), vec![chars("a"), chars("b"), chars(""), chars("c")]);
    assert_eq!(split_chars(&chars(""), ';'), vec![chars("")]);
    assert_eq!(split_chars(&chars(";"), ';'), vec![chars(""), chars("")]);
    assert_eq!(split_chars(&chars("abc"), ';'), vec![chars("abc")]);
}

#[test]
fn numbers_are_written_in_decimal() {
    assert_eq!(decimal(0), chars("0"));
    assert_eq!(decimal(7), chars("7"));
    assert_eq!(decimal(10), chars("10"));
    assert_eq!(decimal(1234567890), chars("1234567890"));
    assert_eq!(decimal(u64::MAX), chars("18446744073709551615"));
    assert_eq!(signed_decimal(0), chars("0"));
    assert_eq!(signed_decimal(-1), chars("-1"));
    assert_eq!(signed_decimal(i64::MAX), chars("9223372036854775807"));
    assert_eq!(signed_decimal(i64::MIN), chars("-9223372036854775808"));
}

#[test]
fn numbers_are_read_as_std_reads_them() {
    let texts = [
        "", "0", "7", "007", "-0", "+0", "+", "-", "+-1", "--1", "12a", "a12", " 1", "1 ", "1_000",
        "65535", "65536", "+65535", "-65535", "99999999999999999999999999", "-1", "１２",
        "9223372036854775807", "9223372036854775808", "-9223372036854775808",
        "-9223372036854775809", "+9223372036854775807", "18446744073709551616", "0x10", "1e3",
        "000000000000000000000000000000000000001", "-000000000000000000000000000000000000009",
    ];
    for text in texts {
        assert_eq!(parse_i64(text), text.parse::<i64>().ok(), "{:?}", text);
        assert_eq!(parse_u16(text), text.parse::<u16>().ok(), "{:?}", text);
    }
    for n in [0i64, 1, -1, 42, i64::MAX, i64::MIN, 1647853773] {
        assert_eq!(parse_i64(&n.to_string()), Some(n));
        assert_eq!(parse_i64(&signed_decimal(n).into_iter().collect::<String>()), Some(n));
    }
    for n in [0u16, 1, 993, u16::MAX] {
        assert_eq!(parse_u16(&n.to_string()), Some(n));
    }
    assert_eq!(parse_digits(&chars("x123"), 1, 123), Some(123));
    assert_eq!(parse_digits(&chars("x123"), 1, 122), None);
    assert_eq!(parse_digits(&chars("x123"), 4, 122), None);
    assert_eq!(parse_digits(&chars("18446744073709551615"), 0, u64::MAX), Some(u64::MAX));
    assert_eq!(parse_digits(&chars("18446744073709551616"), 0, u64::MAX), None);
}
