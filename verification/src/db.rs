//! The statements that read and change the table of words, and the reading
//! of a word from a row.
//!
//! The database itself is opened by the caller, which runs each statement
//! and hands the rows back.

use vstd::prelude::*;
use vstd::string::*;
use crate::codec::DB_FILE_NAME;
use crate::conf::{join_path, path_join};
use crate::merge::{plan_upsert, planned, Change, UpsertAction};
use crate::model::{Record, Word};
use crate::sql_value::{sql_text, text_literal, SqlVal, SqlValue};
use crate::text::signed_decimal_text;

verus! {

/// How long before its due time a word may be tested, in seconds: 18 hours,
/// so that the time of day of the last visit does not matter.
pub const DUE_AHEAD_SECS: i64 = 64800;

/// The statement that makes the table of words where it is missing.
pub const CREATE_TABLE: &'static str =
    "CREATE TABLE IF NOT EXISTS word (id INTEGER PRIMARY KEY, name TEXT NOT NULL UNIQUE, meanings TEXT NOT NULL, period_days INTEGER NOT NULL, last_visit INTEGER NOT NULL, next_visit INTEGER NOT NULL);";

/// The statement that removes every word.
pub const DELETE_ALL: &'static str = "DELETE FROM word;";

/// The statement that reads every word.
pub const SELECT_ALL: &'static str = "SELECT * FROM word";

/// The values of a word's columns but its id, as they stand in a statement.
pub open spec fn name_sql(word: Record) -> Seq<char> {
    text_literal(word.name)
}

pub open spec fn meanings_sql(word: Record) -> Seq<char> {
    text_literal(word.meanings)
}

pub open spec fn period_sql(word: Record) -> Seq<char> {
    signed_decimal_text(word.period_days as int)
}

pub open spec fn last_visit_sql(word: Record) -> Seq<char> {
    signed_decimal_text(word.last_visit as int)
}

pub open spec fn next_visit_sql(word: Record) -> Seq<char> {
    signed_decimal_text(word.next_visit as int)
}

/// The statement that reads the first word whose column has the value.
pub open spec fn select_statement(col: Seq<char>, value: SqlValue) -> Seq<char> {
    "SELECT * FROM word WHERE "@ + col + " = "@ + sql_text(value) + " LIMIT 1;"@
}

/// The statement that inserts a word.
pub open spec fn insert_statement(word: Record) -> Seq<char> {
    "INSERT INTO word (name, meanings, period_days, last_visit, next_visit) VALUES ("@ + name_sql(
        word,
    ) + ", "@ + meanings_sql(word) + ", "@ + period_sql(word) + ", "@ + last_visit_sql(word)
        + ", "@ + next_visit_sql(word) + ");"@
}

/// The statement that writes a word over the row of its id.
pub open spec fn update_statement(word: Record) -> Seq<char> {
    "UPDATE word SET name="@ + name_sql(word) + ", meanings="@ + meanings_sql(word)
        + ", period_days="@ + period_sql(word) + ", last_visit="@ + last_visit_sql(word)
        + ", next_visit="@ + next_visit_sql(word) + " WHERE id = "@ + signed_decimal_text(
        word.id->0 as int,
    ) + ";"@
}

/// The statement that deletes the word of an id.
pub open spec fn delete_statement(id: i64) -> Seq<char> {
    "DELETE FROM word WHERE id = "@ + signed_decimal_text(id as int) + ";"@
}

/// The statement that reads the word that is due first at `now`.
pub open spec fn due_statement(now: i64) -> Seq<char> {
    "SELECT * FROM word WHERE (next_visit - "@ + signed_decimal_text(DUE_AHEAD_SECS as int)
        + ") <= "@ + signed_decimal_text(now as int) + " ORDER BY next_visit ASC LIMIT 1;"@
}

/// The statements of the table of words.
pub struct Db {}

impl Db {
    /// The name of the database file.
    pub fn get_default_db_name() -> (name: String)
        ensures
            name@ == DB_FILE_NAME@,
    {
        String::from_str(DB_FILE_NAME)
    }

    /// The database file in the given directory.
    pub fn db_path_under(dir: &str) -> (path: String)
        ensures
            path@ == path_join(dir@, DB_FILE_NAME@),
    {
        join_path(dir, DB_FILE_NAME)
    }

    /// The statement that reads the first word whose column `col` has the
    /// value `val`.
    pub fn get_by_col(col: &str, val: SqlVal) -> (statement: String)
        ensures
            statement@ == select_statement(col@, val@),
    {
        let mut statement = String::from_str("SELECT * FROM word WHERE ");
        statement.append(col);
        statement.append(" = ");
        statement.append(val.repr().as_str());
        statement.append(" LIMIT 1;");
        statement
    }

    /// The statement that inserts a word. The database gives it its id.
    pub fn insert_word(word: &Word) -> (statement: String)
        ensures
            statement@ == insert_statement(word@),
    {
        let mut statement = String::from_str(
            "INSERT INTO word (name, meanings, period_days, last_visit, next_visit) VALUES (",
        );
        statement.append(SqlVal::Text(word.name.as_str()).repr().as_str());
        statement.append(", ");
        statement.append(SqlVal::Text(word.meanings.as_str()).repr().as_str());
        statement.append(", ");
        statement.append(SqlVal::Integer(word.period_days as i64).repr().as_str());
        statement.append(", ");
        statement.append(SqlVal::Integer(word.last_visit).repr().as_str());
        statement.append(", ");
        statement.append(SqlVal::Integer(word.next_visit).repr().as_str());
        statement.append(");");
        statement
    }

    /// The statement that writes a word over the row of its id.
    pub fn update_word(word: &Word) -> (statement: String)
        requires
            word.id is Some,
        ensures
            statement@ == update_statement(word@),
    {
        let id = match word.id {
            Some(id) => id,
            None => 0,
        };
        let mut statement = String::from_str("UPDATE word SET name=");
        statement.append(SqlVal::Text(word.name.as_str()).repr().as_str());
        statement.append(", meanings=");
        statement.append(SqlVal::Text(word.meanings.as_str()).repr().as_str());
        statement.append(", period_days=");
        statement.append(SqlVal::Integer(word.period_days as i64).repr().as_str());
        statement.append(", last_visit=");
        statement.append(SqlVal::Integer(word.last_visit).repr().as_str());
        statement.append(", next_visit=");
        statement.append(SqlVal::Integer(word.next_visit).repr().as_str());
        statement.append(" WHERE id = ");
        statement.append(SqlVal::Integer(id).repr().as_str());
        statement.append(";");
        statement
    }

    /// The statement that deletes the word of an id.
    pub fn del_word(id: i64) -> (statement: String)
        ensures
            statement@ == delete_statement(id),
    {
        let mut statement = String::from_str("DELETE FROM word WHERE id = ");
        statement.append(SqlVal::Integer(id).repr().as_str());
        statement.append(";");
        statement
    }

    /// The statement that removes every word.
    pub fn clear_words() -> (statement: String)
        ensures
            statement@ == DELETE_ALL@,
    {
        String::from_str(DELETE_ALL)
    }

    /// The statement that reads the word that is due first at `now`.
    pub fn get_one_word_to_test(now: i64) -> (statement: String)
        ensures
            statement@ == due_statement(now),
    {
        let mut statement = String::from_str("SELECT * FROM word WHERE (next_visit - ");
        statement.append(SqlVal::Integer(DUE_AHEAD_SECS).repr().as_str());
        statement.append(") <= ");
        statement.append(SqlVal::Integer(now).repr().as_str());
        statement.append(" ORDER BY next_visit ASC LIMIT 1;");
        statement
    }

    /// The statement that merges a word into the table, given the row that
    /// the table holds under the word's name, if there is one. `None` where
    /// nothing changes.
    pub fn upsert_by_name(existing: Option<&Word>, word: &Word, update_visit_info: bool) -> (statement:
        Option<String>)
        requires
            existing matches Some(known) ==> known.id is Some,
        ensures
            match planned(
                match existing {
                    Some(w) => Some(w@),
                    None => None,
                },
                word@,
                update_visit_info,
            ) {
                Change::Insert(record) => statement matches Some(s) && s@ == insert_statement(
                    record,
                ),
                Change::Update(record) => statement matches Some(s) && s@ == update_statement(
                    record,
                ),
                Change::Keep => statement is None,
            },
    {
        match plan_upsert(existing, word, update_visit_info) {
            UpsertAction::Insert(taken) => Some(Db::insert_word(&taken)),
            UpsertAction::Update(changed) => Some(Db::update_word(&changed)),
            UpsertAction::Keep => None,
        }
    }

    /// The statement that reads every word.
    pub fn get_all_words() -> (statement: String)
        ensures
            statement@ == SELECT_ALL@,
    {
        String::from_str(SELECT_ALL)
    }
}

} // verus!
