//! Values as they are written into an SQL statement.

use vstd::prelude::*;
use vstd::string::*;
use crate::text::{chars_of, signed_decimal, signed_decimal_text, string_of};

verus! {

/// A value of a statement.
#[derive(Debug, Clone, Copy, PartialEq, Eq)]
pub enum SqlVal<'a> {
    Null,
    Integer(i64),
    Text(&'a str),
    Blob(&'a [u8]),
}

/// A value of a statement as a value of mathematics.
pub enum SqlValue {
    Null,
    Integer(i64),
    Text(Seq<char>),
    Blob(Seq<u8>),
}

impl<'a> View for SqlVal<'a> {
    type V = SqlValue;

    open spec fn view(&self) -> SqlValue {
        match self {
            SqlVal::Null => SqlValue::Null,
            SqlVal::Integer(i) => SqlValue::Integer(*i),
            SqlVal::Text(s) => SqlValue::Text(s@),
            SqlVal::Blob(b) => SqlValue::Blob(b@),
        }
    }
}

/// The sixteen digits of hexadecimal notation, in lower case.
pub open spec fn hex_digits() -> Seq<char> {
    seq!['0', '1', '2', '3', '4', '5', '6', '7', '8', '9', 'a', 'b', 'c', 'd', 'e', 'f']
}

/// Bytes in hexadecimal notation: two digits for each byte, the high half
/// first.
pub open spec fn hex_text(bytes: Seq<u8>) -> Seq<char> {
    Seq::new(
        2 * bytes.len(),
        |i: int|
            if i % 2 == 0 {
                hex_digits()[bytes[i / 2] as int / 16]
            } else {
                hex_digits()[bytes[i / 2] as int % 16]
            },
    )
}

/// A text without its single quotes.
pub open spec fn unquoted(text: Seq<char>) -> Seq<char> {
    text.filter(|c: char| c != '\'')
}

/// A text as a string literal: its single quotes are dropped, and it is put
/// between two.
pub open spec fn text_literal(text: Seq<char>) -> Seq<char> {
    seq!['\''] + unquoted(text) + seq!['\'']
}

/// A value as it stands in a statement.
pub open spec fn sql_text(value: SqlValue) -> Seq<char> {
    match value {
        SqlValue::Null => "NULL"@,
        SqlValue::Integer(i) => signed_decimal_text(i as int),
        SqlValue::Text(s) => text_literal(s),
        SqlValue::Blob(b) => seq!['x', '\''] + hex_text(b) + seq!['\''],
    }
}

/// `hex::encode`: the bytes in hexadecimal notation, two lower case digits
/// for each byte.
#[verifier::external_body]
fn hex_encode(bytes: &[u8]) -> (text: String)
    ensures
        text@ == hex_text(bytes@),
{
    hex::encode(bytes)
}

/// Drops the single quotes of a text, so that it cannot end the literal it
/// is written into.
pub fn prepare_sql_value(s: &str) -> (text: String)
    ensures
        text@ == unquoted(s@),
{
    let chars = chars_of(s);
    let mut kept: Vec<char> = Vec::new();
    let mut i: usize = 0;
    assert(chars@.take(0) =~= Seq::<char>::empty());
    while i < chars.len()
        invariant
            0 <= i <= chars@.len(),
            kept@ == unquoted(chars@.take(i as int)),
        decreases chars@.len() - i,
    {
        proof {
            let keep = |c: char| c != '\'';
            assert(chars@.take(i as int + 1).drop_last() =~= chars@.take(i as int));
            reveal(Seq::filter);
        }
        if chars[i] != '\'' {
            kept.push(chars[i]);
        }
        i += 1;
    }
    assert(chars@.take(chars@.len() as int) =~= chars@);
    string_of(&kept)
}

impl<'a> SqlVal<'a> {
    /// The value as it stands in a statement.
    pub fn repr(&self) -> (text: String)
        ensures
            text@ == sql_text(self@),
    {
        match *self {
            SqlVal::Null => String::from_str("NULL"),
            SqlVal::Integer(i) => string_of(&signed_decimal(i)),
            SqlVal::Text(s) => {
                proof {
                    reveal_strlit("'");
                    assert("'"@ =~= seq!['\'']);
                }
                let mut text = String::from_str("'");
                text.append(prepare_sql_value(s).as_str());
                text.append("'");
                text
            },
            SqlVal::Blob(b) => {
                proof {
                    reveal_strlit("x'");
                    reveal_strlit("'");
                    assert("x'"@ =~= seq!['x', '\'']);
                    assert("'"@ =~= seq!['\'']);
                }
                let mut text = String::from_str("x'");
                text.append(hex_encode(b).as_str());
                text.append("'");
                text
            },
        }
    }

    /// The value as it stands in a statement.
    pub fn to_string(&self) -> (text: String)
        ensures
            text@ == sql_text(self@),
    {
        self.repr()
    }
}

} // verus!
