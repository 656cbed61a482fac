//! The subject line of a snapshot message: two fixed bracketed tokens, then
//! the snapshot's instant in a third.

use vstd::prelude::*;
use vstd::string::*;
use crate::error::SyncError;
use crate::text::{chars_of, first_sep, has_char, lemma_first_sep, lemma_first_sep_at, string_of};
use crate::timestamp::{
    parse_rfc3339,
    rfc3339_instant,
    rfc3339_text,
    serializable,
    to_rfc3339_seconds,
};

verus! {

/// The tokens that every snapshot's subject starts with, and that a search
/// for snapshots asks for.
pub const SYNC_MARKER: &'static str = "[wordmem][sync]";

/// The tokens that the subject of a test message starts with.
pub const TEST_MARKER: &'static str = "[wordmem][test]";

/// The subject line of a test message sent at `secs`, where that instant is
/// serializable.
pub open spec fn test_subject_text(secs: i64) -> Option<Seq<char>> {
    if serializable(secs) {
        Some(TEST_MARKER@ + seq!['['] + rfc3339_text(secs)->0 + seq![']'])
    } else {
        None
    }
}

/// The marker followed by one more bracketed token.
pub open spec fn subject_with(token: Seq<char>) -> Seq<char> {
    SYNC_MARKER@ + seq!['['] + token + seq![']']
}

/// The subject line of a snapshot taken at `secs`, where that instant is
/// serializable.
pub open spec fn subject_text(secs: i64) -> Option<Seq<char>> {
    if serializable(secs) {
        Some(subject_with(rfc3339_text(secs)->0))
    } else {
        None
    }
}

/// The bracketed tokens of a text, from left to right. A token starts behind
/// the first `[` that is free and ends before the next `]`.
pub open spec fn tokens(text: Seq<char>) -> Seq<Seq<char>>
    decreases text.len(),
{
    let open = first_sep(text, '[');
    if 0 <= open < text.len() {
        let inner = text.skip(open + 1);
        let close = first_sep(inner, ']');
        if 0 <= close < inner.len() {
            seq![inner.take(close)] + tokens(inner.skip(close + 1))
        } else {
            Seq::empty()
        }
    } else {
        Seq::empty()
    }
}

/// The last bracketed token of a text.
pub open spec fn last_token(text: Seq<char>) -> Option<Seq<char>> {
    if tokens(text).len() == 0 {
        None
    } else {
        Some(tokens(text).last())
    }
}

/// The instant that a subject line carries in its last bracketed token.
pub open spec fn subject_instant(subject: Seq<char>) -> Result<i64, SyncError> {
    match last_token(subject) {
        Some(token) => match rfc3339_instant(token) {
            Some(secs) => Ok(secs),
            None => Err(SyncError::MalformedEnvelope),
        },
        None => Err(SyncError::MalformedEnvelope),
    }
}

/// Whether a subject line starts with the marker.
pub open spec fn has_marker(subject: Seq<char>) -> bool {
    SYNC_MARKER@.is_prefix_of(subject)
}

/// The subject line of a snapshot taken at `secs`. `None` where the instant
/// is not serializable.
pub fn build_subject(secs: i64) -> (subject: Option<String>)
    ensures
        match subject {
            Some(s) => subject_text(secs) == Some(s@),
            None => subject_text(secs) is None,
        },
{
    match to_rfc3339_seconds(secs) {
        Some(text) => {
            let mut subject = String::from_str(SYNC_MARKER);
            proof {
                reveal_strlit("[");
                reveal_strlit("]");
                assert("["@ =~= seq!['[']);
                assert("]"@ =~= seq![']']);
            }
            subject.append("[");
            subject.append(text.as_str());
            subject.append("]");
            Some(subject)
        },
        None => None,
    }
}

/// The subject line of a test message sent at `secs`. `None` where the
/// instant is not serializable.
pub fn build_test_subject(secs: i64) -> (subject: Option<String>)
    ensures
        match subject {
            Some(s) => test_subject_text(secs) == Some(s@),
            None => test_subject_text(secs) is None,
        },
{
    match to_rfc3339_seconds(secs) {
        Some(text) => {
            let mut subject = String::from_str(TEST_MARKER);
            proof {
                reveal_strlit("[");
                reveal_strlit("]");
                assert("["@ =~= seq!['[']);
                assert("]"@ =~= seq![']']);
            }
            subject.append("[");
            subject.append(text.as_str());
            subject.append("]");
            Some(subject)
        },
        None => None,
    }
}

/// The last bracketed token of a text.
pub fn find_last_token(chars: &Vec<char>) -> (token: Option<Vec<char>>)
    ensures
        match token {
            Some(t) => last_token(chars@) == Some(t@),
            None => last_token(chars@) is None,
        },
{
    let n = chars.len();
    let mut last: Option<Vec<char>> = None;
    let ghost mut found: Seq<Seq<char>> = Seq::empty();
    let mut pos: usize = 0;
    assert(chars@.skip(0) =~= chars@);
    loop
        invariant
            0 <= pos <= n,
            n == chars@.len(),
            tokens(chars@) == found + tokens(chars@.skip(pos as int)),
            match last {
                Some(t) => found.len() > 0 && found.last() == t@,
                None => found.len() == 0,
            },
        ensures
            tokens(chars@) == found,
            match last {
                Some(t) => found.len() > 0 && found.last() == t@,
                None => found.len() == 0,
            },
        decreases n - pos,
    {
        let ghost rest = chars@.skip(pos as int);
        let mut open: usize = pos;
        while open < n && chars[open] != '['
            invariant
                pos <= open <= n,
                n == chars@.len(),
                forall|k: int| pos <= k < open ==> chars@[k] != '[',
            decreases n - open,
        {
            open += 1;
        }
        proof {
            lemma_first_sep_at(rest, '[', open - pos);
        }
        if open >= n {
            break;
        }
        let ghost inner = rest.skip(open - pos + 1);
        assert(inner =~= chars@.skip(open as int + 1));
        let mut close: usize = open + 1;
        let mut token: Vec<char> = Vec::new();
        while close < n && chars[close] != ']'
            invariant
                open < close <= n,
                n == chars@.len(),
                forall|k: int| open < k < close ==> chars@[k] != ']',
                token@ == chars@.subrange(open as int + 1, close as int),
            decreases n - close,
        {
            token.push(chars[close]);
            close += 1;
        }
        proof {
            lemma_first_sep_at(inner, ']', close - open - 1);
        }
        if close >= n {
            break;
        }
        proof {
            assert(inner.take(close - open - 1) =~= token@);
            assert(inner.skip(close - open - 1 + 1) =~= chars@.skip(close as int + 1));
            found = found.push(token@);
            assert(tokens(chars@) =~= found + tokens(chars@.skip(close as int + 1)));
        }
        last = Some(token);
        pos = close + 1;
    }
    last
}

/// The instant that a subject line carries: its last bracketed token, read
/// as an RFC 3339 text. A subject without a bracketed token, or whose last
/// one is no such text, is malformed.
pub fn parse_timestamp(subject: &str) -> (instant: Result<i64, SyncError>)
    ensures
        instant == subject_instant(subject@),
{
    let chars = chars_of(subject);
    match find_last_token(&chars) {
        Some(token) => {
            let text = string_of(&token);
            match parse_rfc3339(text.as_str()) {
                Some(secs) => Ok(secs),
                None => Err(SyncError::MalformedEnvelope),
            }
        },
        None => Err(SyncError::MalformedEnvelope),
    }
}

/// Whether a subject line starts with the marker.
pub fn starts_with_marker(subject: &str) -> (found: bool)
    ensures
        found == has_marker(subject@),
{
    let chars = chars_of(subject);
    let marker = chars_of(SYNC_MARKER);
    if chars.len() < marker.len() {
        return false;
    }
    let mut i: usize = 0;
    while i < marker.len()
        invariant
            0 <= i <= marker@.len() <= chars@.len(),
            marker@ == SYNC_MARKER@,
            chars@ == subject@,
            forall|k: int| 0 <= k < i ==> chars@[k] == marker@[k],
        decreases marker@.len() - i,
    {
        if chars[i] != marker[i] {
            return false;
        }
        i += 1;
    }
    assert(marker@ =~= chars@.subrange(0, marker@.len() as int));
    true
}

/// A text that starts with one bracketed token has that token first, and
/// then the tokens of what follows it.
pub proof fn lemma_tokens_after(token: Seq<char>, rest: Seq<char>)
    requires
        !has_char(token, ']'),
    ensures
        tokens(seq!['['] + token + seq![']'] + rest) == seq![token] + tokens(rest),
{
    let text = seq!['['] + token + seq![']'] + rest;
    lemma_first_sep_at(text, '[', 0);
    let inner = text.skip(1);
    assert(inner =~= token + seq![']'] + rest);
    assert forall|i: int| 0 <= i < token.len() implies inner[i] != ']' by {
        assert(inner[i] == token[i]);
    }
    lemma_first_sep_at(inner, ']', token.len() as int);
    assert(inner.take(token.len() as int) =~= token);
    assert(inner.skip(token.len() as int + 1) =~= rest);
}

/// A subject line that was built for an instant reads back as that instant,
/// and starts with the marker.
pub proof fn lemma_subject_round_trip(secs: i64)
    requires
        serializable(secs),
    ensures
        subject_text(secs) matches Some(subject) && subject_instant(subject) == Ok::<
            i64,
            SyncError,
        >(secs) && has_marker(subject),
{
    let text = rfc3339_text(secs)->0;
    let subject = subject_with(text);
    reveal_strlit("[wordmem][sync]");
    let first = seq!['w', 'o', 'r', 'd', 'm', 'e', 'm'];
    let second = seq!['s', 'y', 'n', 'c'];
    let tail2 = seq!['['] + text + seq![']'];
    let tail1 = seq!['['] + second + seq![']'] + tail2;
    assert(SYNC_MARKER@ =~= seq!['['] + first + seq![']'] + seq!['['] + second + seq![']']);
    assert(subject =~= seq!['['] + first + seq![']'] + tail1);
    assert(tail2 =~= seq!['['] + text + seq![']'] + Seq::<char>::empty());
    lemma_tokens_after(first, tail1);
    lemma_tokens_after(second, tail2);
    lemma_tokens_after(text, Seq::empty());
    assert(tokens(Seq::<char>::empty()) =~= Seq::<Seq<char>>::empty()) by {
        lemma_first_sep(Seq::<char>::empty(), '[');
    }
    assert(tokens(subject) =~= seq![first, second, text]);
    assert(tokens(subject).last() == text);
}

} // verus!
