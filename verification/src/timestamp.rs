//! Instants as whole seconds since the Unix epoch, and their RFC 3339 text.

use vstd::prelude::*;
use crate::text::{chars_of, has_char};

verus! {

/// What chrono writes for the instant `secs` seconds after the Unix epoch, in
/// UTC, with whole seconds and `Z` for the zone: the result of
/// `DateTime::to_rfc3339_opts`. `None` where `DateTime::from_timestamp` has
/// no date for the instant.
pub uninterp spec fn rfc3339_text(secs: i64) -> Option<Seq<char>>;

/// The instant that chrono reads from an RFC 3339 text, in whole seconds
/// since the Unix epoch: the result of `DateTime::parse_from_rfc3339`, then
/// `DateTime::timestamp`. `None` where chrono rejects the text.
pub uninterp spec fn rfc3339_instant(text: Seq<char>) -> Option<i64>;

/// `chrono::DateTime::from_timestamp`, then `DateTime::to_rfc3339_opts` with
/// `SecondsFormat::Secs` and `Z`. The result is given the name
/// `rfc3339_text`.
#[verifier::external_body]
fn format_rfc3339(secs: i64) -> (text: Option<String>)
    ensures
        match text {
            Some(t) => rfc3339_text(secs) == Some(t@),
            None => rfc3339_text(secs) is None,
        },
{
    match chrono::DateTime::from_timestamp(secs, 0) {
        Some(instant) => Some(instant.to_rfc3339_opts(chrono::SecondsFormat::Secs, true)),
        None => None,
    }
}

/// `chrono::DateTime::parse_from_rfc3339`, then `DateTime::timestamp`. The
/// result is given the name `rfc3339_instant`.
#[verifier::external_body]
pub(crate) fn parse_rfc3339(text: &str) -> (instant: Option<i64>)
    ensures
        instant == rfc3339_instant(text@),
{
    match chrono::DateTime::parse_from_rfc3339(text) {
        Ok(instant) => Some(instant.timestamp()),
        Err(_) => None,
    }
}

/// Whether a text holds a square bracket.
pub open spec fn has_bracket(text: Seq<char>) -> bool {
    has_char(text, '[') || has_char(text, ']')
}

/// Whether an instant can travel in a subject line: it has an RFC 3339 text,
/// the text holds no square bracket, and the text reads back as the instant.
pub open spec fn serializable(secs: i64) -> bool {
    match rfc3339_text(secs) {
        Some(text) => !has_bracket(text) && rfc3339_instant(text) == Some(secs),
        None => false,
    }
}

/// Whether a text holds a square bracket.
pub fn contains_bracket(text: &str) -> (found: bool)
    ensures
        found == has_bracket(text@),
{
    let chars = chars_of(text);
    let mut i: usize = 0;
    while i < chars.len()
        invariant
            0 <= i <= chars@.len(),
            chars@ == text@,
            forall|k: int| 0 <= k < i ==> chars@[k] != '[' && chars@[k] != ']',
        decreases chars@.len() - i,
    {
        if chars[i] == '[' || chars[i] == ']' {
            return true;
        }
        i += 1;
    }
    false
}

/// The RFC 3339 text of an instant, to the second, where the instant is
/// serializable.
pub fn to_rfc3339_seconds(secs: i64) -> (text: Option<String>)
    ensures
        match text {
            Some(t) => serializable(secs) && rfc3339_text(secs) == Some(t@),
            None => !serializable(secs),
        },
{
    match format_rfc3339(secs) {
        Some(text) => {
            if contains_bracket(text.as_str()) {
                return None;
            }
            match parse_rfc3339(text.as_str()) {
                Some(back) => if back == secs {
                    Some(text)
                } else {
                    None
                },
                None => None,
            }
        },
        None => None,
    }
}

} // verus!
