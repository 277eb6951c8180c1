//! The scanner: one call takes one token off a character buffer and moves the
//! cursor past it.
//!
//! `scan` says, over sequences and integers, which token a call yields and
//! where it leaves the cursor; `next_token` computes exactly that.

use vstd::prelude::*;
use crate::chars::{
    decimal_digit, hex_digit, hex_marker, is_decimal_digit, is_hex_digit, is_hex_marker,
    is_letter, letter,
};
use crate::token::{finish, finished, Lexeme, RunKind, Token};

verus! {

/// A lexeme starts at a letter or at a decimal digit. Every other character
/// separates lexemes and is dropped.
pub open spec fn starts_lexeme(c: char) -> bool {
    letter(c) || decimal_digit(c)
}

/// Whether `c` extends a run of the given kind.
pub open spec fn continues(kind: RunKind, c: char) -> bool {
    match kind {
        RunKind::Word => letter(c) || decimal_digit(c),
        RunKind::Numeral => decimal_digit(c),
        RunKind::Hex => hex_digit(c),
    }
}

/// The first position at or after `from` where a lexeme starts; the length
/// of `s` if there is none.
pub open spec fn lexeme_start(s: Seq<char>, from: int) -> int
    decreases s.len() - from,
{
    if 0 <= from < s.len() && !starts_lexeme(s[from]) {
        lexeme_start(s, from + 1)
    } else {
        from
    }
}

/// The first position at or after `from` whose character does not extend a
/// run of the given kind; the length of `s` if the run reaches the end.
pub open spec fn run_end(s: Seq<char>, from: int, kind: RunKind) -> int
    decreases s.len() - from,
{
    if 0 <= from < s.len() && continues(kind, s[from]) {
        run_end(s, from + 1, kind)
    } else {
        from
    }
}

/// A hexadecimal prefix stands at `at`: a `0`, then `x` or `X`.
pub open spec fn hex_prefix_at(s: Seq<char>, at: int) -> bool {
    0 <= at && at + 1 < s.len() && s[at] == '0' && hex_marker(s[at + 1])
}

/// The kind of the lexeme that starts at `at`. A letter starts a word. A
/// digit starts a numeral, hexadecimal where the digit opens a prefix.
pub open spec fn kind_at(s: Seq<char>, at: int) -> RunKind {
    if letter(s[at]) {
        RunKind::Word
    } else if hex_prefix_at(s, at) {
        RunKind::Hex
    } else {
        RunKind::Numeral
    }
}

/// How many characters open a run of the given kind before any test of
/// continuation: the prefix of a hexadecimal numeral, else the first
/// character.
pub open spec fn opening(kind: RunKind) -> int {
    match kind {
        RunKind::Hex => 2,
        _ => 1,
    }
}

/// One step of tokenization from `pos`: the token, and the cursor after it.
///
/// Separators are dropped up to the start of a lexeme. The lexeme runs as far
/// as its kind allows. A run that stops at a letter is malformed: the token is
/// `Invalid` and the cursor passes that letter. Otherwise the token holds the
/// run's text and the cursor stands at the run's end.
pub open spec fn scan(s: Seq<char>, pos: int) -> (Lexeme, int) {
    let start = lexeme_start(s, pos);
    if start >= s.len() {
        (Lexeme::EOF, start)
    } else {
        let kind = kind_at(s, start);
        let end = run_end(s, start + opening(kind), kind);
        if end < s.len() && letter(s[end]) {
            (Lexeme::Invalid, end + 1)
        } else {
            (finished(kind, s.subrange(start, end)), end)
        }
    }
}

/// `lexeme_start` finds a position in bounds, passes only separators, and
/// stops at the start of a lexeme or at the end of the buffer.
pub proof fn lemma_lexeme_start(s: Seq<char>, from: int)
    requires
        0 <= from <= s.len(),
    ensures
        from <= lexeme_start(s, from) <= s.len(),
        forall|i: int| from <= i < lexeme_start(s, from) ==> !starts_lexeme(#[trigger] s[i]),
        lexeme_start(s, from) < s.len() ==> starts_lexeme(s[lexeme_start(s, from)]),
    decreases s.len() - from,
{
    if from < s.len() && !starts_lexeme(s[from]) {
        lemma_lexeme_start(s, from + 1);
    }
}

/// `run_end` finds a position in bounds, passes only characters that extend
/// the run, and stops at one that does not or at the end of the buffer.
pub proof fn lemma_run_end(s: Seq<char>, from: int, kind: RunKind)
    requires
        0 <= from <= s.len(),
    ensures
        from <= run_end(s, from, kind) <= s.len(),
        forall|i: int| from <= i < run_end(s, from, kind) ==> continues(kind, #[trigger] s[i]),
        run_end(s, from, kind) < s.len() ==> !continues(kind, s[run_end(s, from, kind)]),
    decreases s.len() - from,
{
    if from < s.len() && continues(kind, s[from]) {
        lemma_run_end(s, from + 1, kind);
    }
}

/// Whether `c` starts a lexeme.
pub fn is_lexeme_start(c: char) -> (b: bool)
    ensures
        b == starts_lexeme(c),
{
    is_letter(c) || is_decimal_digit(c)
}

/// Whether `c` extends a run of the given kind.
pub fn extends_run(kind: RunKind, c: char) -> (b: bool)
    ensures
        b == continues(kind, c),
{
    match kind {
        RunKind::Word => is_letter(c) || is_decimal_digit(c),
        RunKind::Numeral => is_decimal_digit(c),
        RunKind::Hex => is_hex_digit(c),
    }
}

/// Passes the separators from `from` on and returns where the next lexeme
/// starts, or the length of the buffer.
pub fn skip_separators(input: &Vec<char>, from: usize) -> (start: usize)
    requires
        from <= input.len(),
    ensures
        start == lexeme_start(input@, from as int),
{
    let mut at: usize = from;
    while at < input.len() && !is_lexeme_start(input[at])
        invariant
            from <= at <= input.len(),
            lexeme_start(input@, at as int) == lexeme_start(input@, from as int),
        decreases input.len() - at,
    {
        at += 1;
    }
    at
}

/// Tells the kind of the lexeme that starts at `at`.
pub fn run_kind(input: &Vec<char>, at: usize) -> (kind: RunKind)
    requires
        at < input.len(),
    ensures
        kind == kind_at(input@, at as int),
{
    if is_letter(input[at]) {
        RunKind::Word
    } else if input[at] == '0' && at + 1 < input.len() && is_hex_marker(input[at + 1]) {
        RunKind::Hex
    } else {
        RunKind::Numeral
    }
}

/// Appends to `text` the characters from `from` on that extend a run of the
/// given kind, and returns where the run ends.
pub fn collect_run(input: &Vec<char>, from: usize, kind: RunKind, text: &mut String) -> (end: usize)
    requires
        from <= input.len(),
    ensures
        end == run_end(input@, from as int, kind),
        from <= end <= input.len(),
        final(text)@ == old(text)@ + input@.subrange(from as int, end as int),
{
    let mut at: usize = from;
    while at < input.len() && extends_run(kind, input[at])
        invariant
            from <= at <= input.len(),
            run_end(input@, at as int, kind) == run_end(input@, from as int, kind),
            text@ == old(text)@ + input@.subrange(from as int, at as int),
        decreases input.len() - at,
    {
        text.push(input[at]);
        at += 1;
        assert(input@.subrange(from as int, at as int) =~= input@.subrange(
            from as int,
            at - 1,
        ).push(input@[at - 1]));
    }
    at
}

/// Scans the buffer from the cursor for the next lexeme, returns its token
/// and leaves the cursor behind it. At the end of the buffer the token is
/// `EOF` and the cursor stays.
pub fn next_token(input: &Vec<char>, current_ptr: &mut usize) -> (token: Token)
    ensures
        token@ == scan(input@, *old(current_ptr) as int).0,
        *final(current_ptr) == scan(input@, *old(current_ptr) as int).1,
        *old(current_ptr) < input.len() ==> *old(current_ptr) < *final(current_ptr)
            <= input.len(),
        *old(current_ptr) >= input.len() ==> *final(current_ptr) == *old(current_ptr) && token@
            == Lexeme::EOF,
{
    let len = input.len();
    if *current_ptr >= len {
        return Token::EOF;
    }
    let start = skip_separators(input, *current_ptr);
    proof {
        lemma_lexeme_start(input@, *old(current_ptr) as int);
    }
    if start >= len {
        *current_ptr = start;
        return Token::EOF;
    }
    let kind = run_kind(input, start);
    let mut text = String::new();
    text.push(input[start]);
    let mut body: usize = start + 1;
    if let RunKind::Hex = kind {
        text.push(input[start + 1]);
        body = start + 2;
    }
    assert(text@ =~= input@.subrange(start as int, body as int));
    let end = collect_run(input, body, kind, &mut text);
    assert(text@ =~= input@.subrange(start as int, end as int));
    if end < len && is_letter(input[end]) {
        *current_ptr = end + 1;
        Token::Invalid
    } else {
        *current_ptr = end;
        finish(kind, text)
    }
}

} // verus!
