//! The first statements of a database file.

use vstd::prelude::*;
use vstd::string::*;
use crate::db::{delete_statement, Db, CREATE_TABLE};

verus! {

/// The statement that a database file is set up with: the table of words is
/// made where the file was not there. `None` where it was.
pub fn init_db(db_exists: bool) -> (statement: Option<String>)
    ensures
        match statement {
            Some(s) => !db_exists && s@ == CREATE_TABLE@,
            None => db_exists,
        },
{
    if db_exists {
        None
    } else {
        Some(String::from_str(CREATE_TABLE))
    }
}

/// The statement that deletes the word of an id.
pub fn del_word(id: i64) -> (statement: String)
    ensures
        statement@ == delete_statement(id),
{
    Db::del_word(id)
}

} // verus!
