//! Text as sequences of characters: conversion from and to strings, trimming,
//! case folding and splitting at a separator.

use vstd::prelude::*;

verus! {

/// What `char::is_whitespace` answers for a character: whether it has the
/// Unicode property White_Space.
pub uninterp spec fn is_space(c: char) -> bool;

/// `char::is_whitespace` of std. Its answer is given the name `is_space`.
pub assume_specification[ char::is_whitespace ](c: char) -> (b: bool)
    ensures
        b == is_space(c),
;

/// What `str::to_lowercase` returns for a text: its lowercase form by the
/// Unicode case mapping.
pub uninterp spec fn lowercase_of(text: Seq<char>) -> Seq<char>;

/// `str::to_lowercase` of std. Its result is given the name `lowercase_of`.
pub assume_specification[ str::to_lowercase ](s: &str) -> (lower: String)
    ensures
        lower@ == lowercase_of(s@),
;

/// Collects characters into a `String` with std's `FromIterator`: the string
/// holds the given characters, in their order.
#[verifier::external_body]
pub(crate) fn string_of(chars: &Vec<char>) -> (s: String)
    ensures
        s@ == chars@,
{
    chars.iter().collect()
}

/// The characters of a string, in their order.
pub fn chars_of(s: &str) -> (chars: Vec<char>)
    ensures
        chars@ == s@,
{
    let mut chars: Vec<char> = Vec::new();
    let it0 = s.chars();
    for c in it: it0
        invariant
            it.seq() == s@,
            chars@ == it.seq().take(it.index()),
    {
        chars.push(c);
    }
    chars
}

/// The text without the white space at its start.
pub open spec fn trim_start(text: Seq<char>) -> Seq<char>
    decreases text.len(),
{
    if text.len() > 0 && is_space(text.first()) {
        trim_start(text.drop_first())
    } else {
        text
    }
}

/// The text without the white space at its end.
pub open spec fn trim_end(text: Seq<char>) -> Seq<char>
    decreases text.len(),
{
    if text.len() > 0 && is_space(text.last()) {
        trim_end(text.drop_last())
    } else {
        text
    }
}

/// The text without the white space at its start and at its end.
pub open spec fn trimmed(text: Seq<char>) -> Seq<char> {
    trim_end(trim_start(text))
}

/// Whether the character occurs in the text.
pub open spec fn has_char(text: Seq<char>, c: char) -> bool {
    exists|i: int| 0 <= i < text.len() && text[i] == c
}

/// The place of the first `sep` in the text, or the length of the text where
/// there is none.
pub open spec fn first_sep(text: Seq<char>, sep: char) -> int
    decreases text.len(),
{
    if text.len() == 0 || text.first() == sep {
        0
    } else {
        1 + first_sep(text.drop_first(), sep)
    }
}

/// The pieces of the text between the occurrences of `sep`. A text without
/// `sep` is one piece, the empty text too.
pub open spec fn split(text: Seq<char>, sep: char) -> Seq<Seq<char>>
    decreases text.len(),
{
    let at = first_sep(text, sep);
    if 0 <= at < text.len() {
        seq![text.take(at)] + split(text.skip(at + 1), sep)
    } else {
        seq![text]
    }
}

/// The pieces put together again, with `sep` between two neighbours.
pub open spec fn join(pieces: Seq<Seq<char>>, sep: char) -> Seq<char>
    decreases pieces.len(),
{
    if pieces.len() == 0 {
        Seq::empty()
    } else if pieces.len() == 1 {
        pieces[0]
    } else {
        pieces[0] + seq![sep] + join(pieces.drop_first(), sep)
    }
}

/// `first_sep` lies within the text; no `sep` stands before it, and it is at
/// a `sep` unless it is the length.
pub proof fn lemma_first_sep(text: Seq<char>, sep: char)
    ensures
        0 <= first_sep(text, sep) <= text.len(),
        forall|i: int| 0 <= i < first_sep(text, sep) ==> text[i] != sep,
        first_sep(text, sep) < text.len() ==> text[first_sep(text, sep)] == sep,
    decreases text.len(),
{
    if text.len() == 0 || text.first() == sep {
    } else {
        let rest = text.drop_first();
        lemma_first_sep(rest, sep);
        assert forall|i: int| 0 <= i < first_sep(text, sep) implies text[i] != sep by {
            if i > 0 {
                assert(text[i] == rest[i - 1]);
            }
        }
        if first_sep(text, sep) < text.len() {
            assert(text[first_sep(text, sep)] == rest[first_sep(rest, sep)]);
        }
    }
}

/// Where the first `sep` stands at `at`, `first_sep` is `at`.
pub proof fn lemma_first_sep_at(text: Seq<char>, sep: char, at: int)
    requires
        0 <= at <= text.len(),
        forall|i: int| 0 <= i < at ==> text[i] != sep,
        at < text.len() ==> text[at] == sep,
    ensures
        first_sep(text, sep) == at,
{
    lemma_first_sep(text, sep);
    let found = first_sep(text, sep);
    if found < at {
        assert(text[found] == sep);
    } else if found > at {
        assert(text[at] != sep);
    }
}

/// What `trim_start` leaves is the end of the text, and does not start with
/// white space.
pub proof fn lemma_trim_start(text: Seq<char>)
    ensures
        trim_start(text).len() <= text.len(),
        trim_start(text) == text.skip(text.len() - trim_start(text).len()),
        trim_start(text).len() > 0 ==> !is_space(trim_start(text).first()),
    decreases text.len(),
{
    if text.len() > 0 && is_space(text.first()) {
        let rest = text.drop_first();
        lemma_trim_start(rest);
        let kept = trim_start(rest);
        assert(rest.skip(rest.len() - kept.len()) =~= text.skip(text.len() - kept.len()));
    } else {
        assert(text.skip(0) =~= text);
    }
}

/// What `trim_end` leaves is the start of the text, and does not end with
/// white space.
pub proof fn lemma_trim_end(text: Seq<char>)
    ensures
        trim_end(text).len() <= text.len(),
        trim_end(text) == text.take(trim_end(text).len() as int),
        trim_end(text).len() > 0 ==> !is_space(trim_end(text).last()),
    decreases text.len(),
{
    if text.len() > 0 && is_space(text.last()) {
        let rest = text.drop_last();
        lemma_trim_end(rest);
        let kept = trim_end(rest);
        assert(rest.take(kept.len() as int) =~= text.take(kept.len() as int));
    } else {
        assert(text.take(text.len() as int) =~= text);
    }
}

/// A trimmed text is a stretch of the text, and trimming it again changes
/// nothing.
pub proof fn lemma_trimmed(text: Seq<char>)
    ensures
        trimmed(text).len() <= text.len(),
        exists|from: int|
            0 <= from && from + trimmed(text).len() <= text.len() && trimmed(text)
                == #[trigger] text.subrange(from, from + trimmed(text).len()),
        trimmed(trimmed(text)) == trimmed(text),
{
    let front = trim_start(text);
    let kept = trimmed(text);
    lemma_trim_start(text);
    lemma_trim_end(front);
    let from = text.len() - front.len();
    assert(kept =~= text.subrange(from, from + kept.len()));
    if kept.len() > 0 {
        assert(kept.first() == front.first());
    }
    assert(trim_start(kept) == kept);
    assert(trim_end(kept) == kept);
}

/// Trimming brings no character into a text.
pub proof fn lemma_trimmed_has_no(text: Seq<char>, c: char)
    requires
        !has_char(text, c),
    ensures
        !has_char(trimmed(text), c),
{
    lemma_trimmed(text);
    let kept = trimmed(text);
    let from = choose|from: int|
        0 <= from && from + kept.len() <= text.len() && kept == #[trigger] text.subrange(
            from,
            from + kept.len(),
        );
    assert forall|i: int| 0 <= i < kept.len() implies kept[i] != c by {
        assert(kept[i] == text[from + i]);
    }
}

/// A text has at least one piece, and no piece holds the separator.
pub proof fn lemma_split_pieces(text: Seq<char>, sep: char)
    ensures
        split(text, sep).len() >= 1,
        forall|j: int| 0 <= j < split(text, sep).len() ==> !has_char(#[trigger] split(text, sep)[j], sep),
    decreases text.len(),
{
    lemma_first_sep(text, sep);
    let at = first_sep(text, sep);
    if 0 <= at < text.len() {
        let rest = text.skip(at + 1);
        lemma_split_pieces(rest, sep);
        let head = text.take(at);
        assert forall|j: int| 0 <= j < split(text, sep).len() implies !has_char(
            #[trigger] split(text, sep)[j],
            sep,
        ) by {
            if j == 0 {
                assert(split(text, sep)[0] == head);
                assert forall|i: int| 0 <= i < head.len() implies head[i] != sep by {
                    assert(head[i] == text[i]);
                }
            } else {
                assert(split(text, sep)[j] == split(rest, sep)[j - 1]);
            }
        }
    } else {
        assert(split(text, sep)[0] == text);
    }
}

/// Pieces that hold no separator come back when their joined text is split.
pub proof fn lemma_split_join(pieces: Seq<Seq<char>>, sep: char)
    requires
        pieces.len() >= 1,
        forall|j: int| 0 <= j < pieces.len() ==> !has_char(#[trigger] pieces[j], sep),
    ensures
        split(join(pieces, sep), sep) == pieces,
    decreases pieces.len(),
{
    let text = join(pieces, sep);
    let head = pieces[0];
    assert(!has_char(head, sep));
    if pieces.len() == 1 {
        lemma_first_sep_at(text, sep, text.len() as int);
        assert(split(text, sep) =~= pieces);
    } else {
        let rest = pieces.drop_first();
        assert forall|j: int| 0 <= j < rest.len() implies !has_char(#[trigger] rest[j], sep) by {
            assert(rest[j] == pieces[j + 1]);
        }
        lemma_split_join(rest, sep);
        assert forall|i: int| 0 <= i < head.len() implies text[i] != sep by {
            assert(text[i] == head[i]);
        }
        lemma_first_sep_at(text, sep, head.len() as int);
        assert(text.take(head.len() as int) =~= head);
        assert(text.skip(head.len() as int + 1) =~= join(rest, sep));
        assert(split(text, sep) =~= pieces);
    }
}

/// The white space at both ends of a text is left out, from a copy.
pub fn trim(chars: &Vec<char>) -> (out: Vec<char>)
    ensures
        out@ == trimmed(chars@),
{
    let n = chars.len();
    let mut start: usize = 0;
    assert(chars@.skip(0) =~= chars@);
    while start < n && chars[start].is_whitespace()
        invariant
            0 <= start <= n,
            n == chars@.len(),
            trim_start(chars@) == trim_start(chars@.skip(start as int)),
        decreases n - start,
    {
        proof {
            let rest = chars@.skip(start as int);
            assert(rest.first() == chars@[start as int]);
            assert(rest.drop_first() =~= chars@.skip(start as int + 1));
        }
        start += 1;
    }
    proof {
        let rest = chars@.skip(start as int);
        if start < n {
            assert(rest.first() == chars@[start as int]);
        }
        assert(trim_start(rest) == rest);
    }
    let mut end: usize = n;
    while end > start && chars[end - 1].is_whitespace()
        invariant
            start <= end <= n,
            n == chars@.len(),
            trim_end(chars@.skip(start as int)) == trim_end(chars@.subrange(start as int, end as int)),
        decreases end,
    {
        proof {
            let part = chars@.subrange(start as int, end as int);
            assert(part.last() == chars@[end as int - 1]);
            assert(part.drop_last() =~= chars@.subrange(start as int, end as int - 1));
        }
        end -= 1;
    }
    proof {
        let part = chars@.subrange(start as int, end as int);
        if end > start {
            assert(part.last() == chars@[end as int - 1]);
        }
        assert(trim_end(part) == part);
    }
    let mut out: Vec<char> = Vec::new();
    let mut i: usize = start;
    while i < end
        invariant
            start <= i <= end <= n,
            n == chars@.len(),
            out@ == chars@.subrange(start as int, i as int),
        decreases end - i,
    {
        out.push(chars[i]);
        i += 1;
    }
    out
}

/// The texts that a list of character vectors holds.
pub open spec fn texts_of(pieces: Seq<Vec<char>>) -> Seq<Seq<char>> {
    pieces.map_values(|piece: Vec<char>| piece@)
}

/// The pieces of a text between the occurrences of `sep`.
pub fn split_chars(chars: &Vec<char>, sep: char) -> (pieces: Vec<Vec<char>>)
    ensures
        texts_of(pieces@) == split(chars@, sep),
{
    let n = chars.len();
    let mut pieces: Vec<Vec<char>> = Vec::new();
    let mut piece: Vec<char> = Vec::new();
    let mut start: usize = 0;
    let mut i: usize = 0;
    assert(chars@.skip(0) =~= chars@);
    assert(texts_of(pieces@) =~= Seq::<Seq<char>>::empty());
    while i < n
        invariant
            0 <= start <= i <= n,
            n == chars@.len(),
            piece@ == chars@.subrange(start as int, i as int),
            forall|k: int| start <= k < i ==> chars@[k] != sep,
            split(chars@, sep) == texts_of(pieces@) + split(
                chars@.skip(start as int),
                sep,
            ),
        decreases n - i,
    {
        let c = chars[i];
        if c == sep {
            proof {
                let rest = chars@.skip(start as int);
                lemma_first_sep_at(rest, sep, i - start);
                assert(rest.take(i - start) =~= piece@);
                assert(rest.skip(i - start + 1) =~= chars@.skip(i as int + 1));
                assert(texts_of(pieces@.push(piece))
                    =~= texts_of(pieces@) + seq![piece@]);
            }
            pieces.push(piece);
            piece = Vec::new();
            start = i + 1;
        } else {
            piece.push(c);
        }
        i += 1;
    }
    proof {
        let rest = chars@.skip(start as int);
        lemma_first_sep_at(rest, sep, n - start);
        assert(rest =~= piece@);
        assert(texts_of(pieces@.push(piece))
            =~= texts_of(pieces@) + seq![piece@]);
    }
    pieces.push(piece);
    pieces
}

/// The value of a digit; `None` for any other character.
pub open spec fn digit_value(c: char) -> Option<int> {
    if c == '0' {
        Some(0)
    } else if c == '1' {
        Some(1)
    } else if c == '2' {
        Some(2)
    } else if c == '3' {
        Some(3)
    } else if c == '4' {
        Some(4)
    } else if c == '5' {
        Some(5)
    } else if c == '6' {
        Some(6)
    } else if c == '7' {
        Some(7)
    } else if c == '8' {
        Some(8)
    } else if c == '9' {
        Some(9)
    } else {
        None
    }
}

/// The number that digits write in decimal notation. `None` where the text
/// is empty or holds anything but digits.
pub open spec fn digits_value(text: Seq<char>) -> Option<int>
    decreases text.len(),
{
    if text.len() == 0 {
        None
    } else if text.len() == 1 {
        digit_value(text[0])
    } else {
        match (digits_value(text.drop_last()), digit_value(text.last())) {
            (Some(front), Some(unit)) => Some(10 * front + unit),
            _ => None,
        }
    }
}

/// The integer that a text writes: digits, with a sign before them or
/// without.
pub open spec fn number_value(text: Seq<char>) -> Option<int> {
    if text.len() > 0 && text[0] == '-' {
        match digits_value(text.skip(1)) {
            Some(value) => Some(-value),
            None => None,
        }
    } else if text.len() > 0 && text[0] == '+' {
        digits_value(text.skip(1))
    } else {
        digits_value(text)
    }
}

/// The `i64` that a text writes. `None` where the text writes no integer,
/// or one that an `i64` does not hold.
pub open spec fn parsed_i64(text: Seq<char>) -> Option<i64> {
    match number_value(text) {
        Some(value) => if i64::MIN <= value <= i64::MAX {
            Some(value as i64)
        } else {
            None
        },
        None => None,
    }
}

/// The `u16` that a text writes. `None` where the text writes no integer,
/// starts with a minus sign, or writes more than a `u16` holds.
pub open spec fn parsed_u16(text: Seq<char>) -> Option<u16> {
    if text.len() > 0 && text[0] == '-' {
        None
    } else {
        match number_value(text) {
            Some(value) => if value <= u16::MAX {
                Some(value as u16)
            } else {
                None
            },
            None => None,
        }
    }
}

/// Digits write no negative number, and no smaller one than those before
/// the last do.
pub proof fn lemma_digits_value(text: Seq<char>)
    ensures
        digits_value(text) matches Some(value) ==> value >= 0 && (text.len() > 1 ==> (
        digits_value(text.drop_last()) matches Some(front) && value >= 10 * front)),
    decreases text.len(),
{
    if text.len() > 1 {
        lemma_digits_value(text.drop_last());
    }
}

/// The value of a digit.
pub fn value_of_digit(c: char) -> (value: Option<u64>)
    ensures
        match value {
            Some(v) => digit_value(c) == Some(v as int) && v < 10,
            None => digit_value(c) is None,
        },
{
    if c == '0' {
        Some(0)
    } else if c == '1' {
        Some(1)
    } else if c == '2' {
        Some(2)
    } else if c == '3' {
        Some(3)
    } else if c == '4' {
        Some(4)
    } else if c == '5' {
        Some(5)
    } else if c == '6' {
        Some(6)
    } else if c == '7' {
        Some(7)
    } else if c == '8' {
        Some(8)
    } else if c == '9' {
        Some(9)
    } else {
        None
    }
}

/// The number that the characters from `from` on write in digits, where it
/// is no more than `limit`.
pub fn parse_digits(chars: &Vec<char>, from: usize, limit: u64) -> (value: Option<u64>)
    requires
        from <= chars@.len(),
    ensures
        match value {
            Some(v) => digits_value(chars@.skip(from as int)) == Some(v as int) && v <= limit,
            None => match digits_value(chars@.skip(from as int)) {
                Some(v) => v > limit,
                None => true,
            },
        },
{
    let ghost text = chars@.skip(from as int);
    let n = chars.len();
    if from == n {
        return None;
    }
    let mut value: u64 = 0;
    let mut i: usize = from;
    while i < n
        invariant
            from <= i <= n,
            from < n,
            n == chars@.len(),
            text == chars@.skip(from as int),
            value <= limit,
            i > from ==> digits_value(text.take(i - from)) == Some(value as int),
            i == from ==> value == 0,
        decreases n - i,
    {
        let ghost seen = text.take(i - from);
        let ghost more = text.take(i - from + 1);
        proof {
            assert(more.drop_last() =~= seen);
            assert(more.last() == chars@[i as int]);
        }
        let unit = match value_of_digit(chars[i]) {
            Some(unit) => unit,
            None => {
                proof {
                    assert(digits_value(more) is None);
                    lemma_digits_prefix(text, i - from + 1);
                }
                return None;
            },
        };
        let next: u128 = 10 * (value as u128) + (unit as u128);
        proof {
            assert(digits_value(more) == Some(next as int));
        }
        if next > limit as u128 {
            proof {
                lemma_digits_prefix(text, i - from + 1);
            }
            return None;
        }
        value = next as u64;
        i += 1;
    }
    proof {
        assert(text.take(n - from) =~= text);
    }
    Some(value)
}

/// Where a text writes a number in digits, so does each of its starts, and
/// none writes a greater one.
pub proof fn lemma_digits_prefix(text: Seq<char>, len: int)
    requires
        1 <= len <= text.len(),
    ensures
        digits_value(text) matches Some(value) ==> (digits_value(text.take(len)) matches Some(
            front,
        ) && front <= value),
    decreases text.len(),
{
    if len == text.len() {
        assert(text.take(len) =~= text);
    } else {
        lemma_digits_value(text);
        lemma_digits_prefix(text.drop_last(), len);
        assert(text.drop_last().take(len) =~= text.take(len));
    }
}

/// Reads an `i64` from a text.
pub fn parse_i64(text: &str) -> (number: Option<i64>)
    ensures
        number == parsed_i64(text@),
{
    let chars = chars_of(text);
    assert(chars@.skip(0) =~= chars@);
    if chars.len() > 0 && chars[0] == '-' {
        proof {
            lemma_digits_value(chars@.skip(1));
        }
        match parse_digits(&chars, 1, 9223372036854775808u64) {
            Some(value) => if value == 9223372036854775808u64 {
                Some(i64::MIN)
            } else {
                Some(-(value as i64))
            },
            None => None,
        }
    } else if chars.len() > 0 && chars[0] == '+' {
        proof {
            lemma_digits_value(chars@.skip(1));
        }
        match parse_digits(&chars, 1, 9223372036854775807u64) {
            Some(value) => Some(value as i64),
            None => None,
        }
    } else {
        proof {
            lemma_digits_value(chars@);
        }
        match parse_digits(&chars, 0, 9223372036854775807u64) {
            Some(value) => Some(value as i64),
            None => None,
        }
    }
}

/// Reads a `u16` from a text.
pub fn parse_u16(text: &str) -> (number: Option<u16>)
    ensures
        number == parsed_u16(text@),
{
    let chars = chars_of(text);
    assert(chars@.skip(0) =~= chars@);
    if chars.len() > 0 && chars[0] == '-' {
        None
    } else if chars.len() > 0 && chars[0] == '+' {
        proof {
            lemma_digits_value(chars@.skip(1));
        }
        match parse_digits(&chars, 1, 65535) {
            Some(value) => Some(value as u16),
            None => None,
        }
    } else {
        proof {
            lemma_digits_value(chars@);
        }
        match parse_digits(&chars, 0, 65535) {
            Some(value) => Some(value as u16),
            None => None,
        }
    }
}

/// The ten digits.
pub open spec fn digits() -> Seq<char> {
    seq!['0', '1', '2', '3', '4', '5', '6', '7', '8', '9']
}

/// A natural number in decimal notation.
pub open spec fn decimal_text(n: nat) -> Seq<char>
    decreases n,
{
    if n < 10 {
        seq![digits()[n as int]]
    } else {
        decimal_text(n / 10) + seq![digits()[(n % 10) as int]]
    }
}

/// An integer in decimal notation, with a minus sign where it is negative.
pub open spec fn signed_decimal_text(i: int) -> Seq<char> {
    if i < 0 {
        seq!['-'] + decimal_text((-i) as nat)
    } else {
        decimal_text(i as nat)
    }
}

/// The character of a digit.
pub fn digit(d: u64) -> (c: char)
    requires
        d < 10,
    ensures
        c == digits()[d as int],
{
    if d == 0 {
        '0'
    } else if d == 1 {
        '1'
    } else if d == 2 {
        '2'
    } else if d == 3 {
        '3'
    } else if d == 4 {
        '4'
    } else if d == 5 {
        '5'
    } else if d == 6 {
        '6'
    } else if d == 7 {
        '7'
    } else if d == 8 {
        '8'
    } else {
        '9'
    }
}

/// A number in decimal notation.
pub fn decimal(n: u64) -> (text: Vec<char>)
    ensures
        text@ == decimal_text(n as nat),
    decreases n,
{
    if n < 10 {
        let mut text: Vec<char> = Vec::new();
        text.push(digit(n));
        text
    } else {
        let mut text = decimal(n / 10);
        text.push(digit(n % 10));
        text
    }
}

/// An integer in decimal notation.
pub fn signed_decimal(i: i64) -> (text: Vec<char>)
    ensures
        text@ == signed_decimal_text(i as int),
{
    if i < 0 {
        let magnitude: u64 = if i == i64::MIN {
            9223372036854775808u64
        } else {
            (-i) as u64
        };
        let mut text: Vec<char> = Vec::new();
        text.push('-');
        let mut rest = decimal(magnitude);
        text.append(&mut rest);
        text
    } else {
        decimal(i as u64)
    }
}

} // verus!
