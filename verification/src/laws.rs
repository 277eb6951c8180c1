//! What holds of every scan, proved from the definition of `scan`.
//!
//! `next_token` returns what `scan` says, so each statement here is a
//! statement about calls of `next_token`.

use vstd::prelude::*;
use crate::chars::{blank, decimal_digit, hex_digit, letter};
use crate::lex::{
    continues, hex_prefix_at, kind_at, lemma_lexeme_start, lemma_run_end, lexeme_start, opening,
    run_end, scan, starts_lexeme,
};
use crate::token::{finished, fn_keyword, resolved, Lexeme, RunKind};

verus! {

/// The text that a token carries; empty for the tokens that carry none.
pub open spec fn text_of(token: Lexeme) -> Seq<char> {
    match token {
        Lexeme::Identifier(text) => text,
        Lexeme::IntegerLiteral(text) => text,
        Lexeme::HexLiteral(text) => text,
        _ => Seq::empty(),
    }
}

/// The token of the lexeme that covers `s` from `start` to `end`.
pub open spec fn finished_at(s: Seq<char>, start: int, end: int) -> Lexeme {
    finished(kind_at(s, start), s.subrange(start, end))
}

/// A word: a letter, then letters and decimal digits.
pub open spec fn is_word(w: Seq<char>) -> bool {
    &&& w.len() > 0
    &&& letter(w[0])
    &&& forall|i: int| 0 <= i < w.len() ==> continues(RunKind::Word, #[trigger] w[i])
}

/// Only one position meets the description of `lexeme_start`.
pub proof fn lemma_lexeme_start_is(s: Seq<char>, from: int, at: int)
    requires
        0 <= from <= at <= s.len(),
        forall|i: int| from <= i < at ==> !starts_lexeme(#[trigger] s[i]),
        at < s.len() ==> starts_lexeme(s[at]),
    ensures
        lexeme_start(s, from) == at,
    decreases at - from,
{
    if from < at {
        assert(!starts_lexeme(s[from]));
        lemma_lexeme_start_is(s, from + 1, at);
    }
}

/// Only one position meets the description of `run_end`.
pub proof fn lemma_run_end_is(s: Seq<char>, from: int, kind: RunKind, end: int)
    requires
        0 <= from <= end <= s.len(),
        forall|i: int| from <= i < end ==> continues(kind, #[trigger] s[i]),
        end < s.len() ==> !continues(kind, s[end]),
    ensures
        run_end(s, from, kind) == end,
    decreases end - from,
{
    if from < end {
        assert(continues(kind, s[from]));
        lemma_run_end_is(s, from + 1, kind, end);
    }
}

/// Every character that extends a run of any kind could also start a lexeme:
/// no separator is ever part of a run.
pub proof fn lemma_run_has_no_separator(kind: RunKind, c: char)
    requires
        continues(kind, c),
    ensures
        starts_lexeme(c),
{
}

/// A blank is a separator.
pub proof fn lemma_blank_separates(c: char)
    requires
        blank(c),
    ensures
        !starts_lexeme(c),
{
}

/// A buffer that holds nothing but separators from the cursor on yields
/// `EOF`, and the cursor stops at the end of the buffer, not beyond it.
pub proof fn lemma_separators_only(s: Seq<char>, pos: int)
    requires
        0 <= pos <= s.len(),
        forall|i: int| pos <= i < s.len() ==> !starts_lexeme(#[trigger] s[i]),
    ensures
        scan(s, pos) == (Lexeme::EOF, s.len() as int),
{
    lemma_lexeme_start_is(s, pos, s.len() as int);
}

/// A buffer of blanks, the empty buffer included, yields `EOF` with the
/// cursor at its end.
pub proof fn lemma_blank_buffer(s: Seq<char>)
    requires
        forall|i: int| 0 <= i < s.len() ==> blank(#[trigger] s[i]),
    ensures
        scan(s, 0) == (Lexeme::EOF, s.len() as int),
{
    assert forall|i: int| 0 <= i < s.len() implies !starts_lexeme(#[trigger] s[i]) by {
        lemma_blank_separates(s[i]);
    }
    lemma_separators_only(s, 0);
}

/// A buffer that is one word yields that word's token and is used up: the
/// keyword where the word is spelled `fn`, for every other word an identifier
/// with the whole word as its text.
pub proof fn lemma_word_buffer(w: Seq<char>)
    requires
        is_word(w),
    ensures
        scan(w, 0) == (resolved(w), w.len() as int),
        w == fn_keyword() ==> scan(w, 0).0 == Lexeme::Fn,
        w != fn_keyword() ==> scan(w, 0).0 == Lexeme::Identifier(w),
{
    lemma_lexeme_start_is(w, 0, 0);
    lemma_run_end_is(w, 1, RunKind::Word, w.len() as int);
    assert(w.subrange(0, w.len() as int) =~= w);
}

/// The reserved word is a word, so a buffer that holds just `fn` yields the
/// keyword.
pub proof fn lemma_keyword_buffer()
    ensures
        is_word(fn_keyword()),
        scan(fn_keyword(), 0) == (Lexeme::Fn, 2int),
{
    let w = fn_keyword();
    assert(w.len() == 2);
    assert(w[0] == 'f' && w[1] == 'n');
    assert(letter('f') && letter('n'));
    lemma_word_buffer(w);
}

/// With the cursor at or past the end of the buffer the token is `EOF` and
/// the cursor does not move, however often the scan is repeated.
pub proof fn lemma_end_is_final(s: Seq<char>, pos: int)
    requires
        pos >= s.len(),
    ensures
        scan(s, pos) == (Lexeme::EOF, pos),
        scan(s, scan(s, pos).1) == scan(s, pos),
{
}

/// Once a scan has yielded `EOF`, every later scan from where it left the
/// cursor yields `EOF` again and leaves the cursor there.
pub proof fn lemma_eof_repeats(s: Seq<char>, pos: int)
    requires
        0 <= pos,
        scan(s, pos).0 == Lexeme::EOF,
    ensures
        scan(s, pos).1 >= s.len(),
        scan(s, scan(s, pos).1) == scan(s, pos),
{
    if pos <= s.len() {
        lemma_lexeme_start(s, pos);
        let start = lexeme_start(s, pos);
        if start < s.len() {
            let kind = kind_at(s, start);
            lemma_run_end(s, start + opening(kind), kind);
        }
    }
}

/// The cursor never moves back and never leaves the buffer, and while a
/// character is left it moves forward, whatever the token, `Invalid`
/// included: a caller that scans until `EOF` gets there.
pub proof fn lemma_progress(s: Seq<char>, pos: int)
    requires
        0 <= pos <= s.len(),
    ensures
        pos <= scan(s, pos).1 <= s.len(),
        pos < s.len() ==> pos < scan(s, pos).1,
        scan(s, pos).0 != Lexeme::EOF ==> pos < scan(s, pos).1,
{
    lemma_lexeme_start(s, pos);
    let start = lexeme_start(s, pos);
    if start < s.len() {
        let kind = kind_at(s, start);
        lemma_run_end(s, start + opening(kind), kind);
    }
}

/// Longest match. A token that carries text, or the keyword, covers the
/// buffer from the start of the lexeme to the cursor, and the run could not
/// have gone on: behind it stands a separator or the end of the buffer.
pub proof fn lemma_longest_match(s: Seq<char>, pos: int)
    requires
        0 <= pos <= s.len(),
        scan(s, pos).0 != Lexeme::EOF,
        scan(s, pos).0 != Lexeme::Invalid,
    ensures
        ({
            let start = lexeme_start(s, pos);
            let end = scan(s, pos).1;
            &&& pos <= start < end <= s.len()
            &&& scan(s, pos).0 == finished_at(s, start, end)
            &&& forall|i: int| start <= i < end ==> starts_lexeme(#[trigger] s[i])
            &&& end < s.len() ==> !starts_lexeme(s[end])
        }),
{
    lemma_lexeme_start(s, pos);
    let start = lexeme_start(s, pos);
    let kind = kind_at(s, start);
    lemma_run_end(s, start + opening(kind), kind);
    let end = run_end(s, start + opening(kind), kind);
    assert forall|i: int| start <= i < end implies starts_lexeme(#[trigger] s[i]) by {
        if i >= start + opening(kind) {
            lemma_run_has_no_separator(kind, s[i]);
        }
    }
}

/// No separator stands inside a token's text.
pub proof fn lemma_text_has_no_separator(s: Seq<char>, pos: int)
    requires
        0 <= pos <= s.len(),
    ensures
        forall|i: int|
            0 <= i < text_of(scan(s, pos).0).len() ==> starts_lexeme(
                #[trigger] text_of(scan(s, pos).0)[i],
            ),
{
    let token = scan(s, pos).0;
    if token != Lexeme::EOF && token != Lexeme::Invalid && token != Lexeme::Fn {
        lemma_longest_match(s, pos);
        let start = lexeme_start(s, pos);
        let end = scan(s, pos).1;
        assert(text_of(token) == s.subrange(start, end));
        assert forall|i: int| 0 <= i < text_of(token).len() implies starts_lexeme(
            #[trigger] text_of(token)[i],
        ) by {
            assert(text_of(token)[i] == s[start + i]);
        }
    }
}

/// Separators before a lexeme do not show: a scan from any of them yields
/// what a scan from behind them yields.
pub proof fn lemma_leading_separators(s: Seq<char>, pos: int, at: int)
    requires
        0 <= pos <= at <= s.len(),
        forall|i: int| pos <= i < at ==> !starts_lexeme(#[trigger] s[i]),
    ensures
        scan(s, pos) == scan(s, at),
    decreases at - pos,
{
    if pos < at {
        assert(!starts_lexeme(s[pos]));
        lemma_leading_separators(s, pos + 1, at);
    }
}

/// The start of the next lexeme does not depend on what stands before the
/// cursor.
proof fn lemma_lexeme_start_shifted(t: Seq<char>, s: Seq<char>, from: int)
    requires
        0 <= from <= s.len(),
    ensures
        lexeme_start(t + s, t.len() + from) == t.len() + lexeme_start(s, from),
{
    let ts = t + s;
    lemma_lexeme_start(s, from);
    let at = lexeme_start(s, from);
    assert forall|i: int| t.len() + from <= i < t.len() + at implies !starts_lexeme(
        #[trigger] ts[i],
    ) by {
        assert(ts[i] == s[i - t.len()]);
    }
    if at < s.len() {
        assert(ts[t.len() + at] == s[at]);
    }
    lemma_lexeme_start_is(ts, t.len() + from, t.len() + at);
}

/// The end of a run does not depend on what stands before the run.
proof fn lemma_run_end_shifted(t: Seq<char>, s: Seq<char>, from: int, kind: RunKind)
    requires
        0 <= from <= s.len(),
    ensures
        run_end(t + s, t.len() + from, kind) == t.len() + run_end(s, from, kind),
{
    let ts = t + s;
    lemma_run_end(s, from, kind);
    let end = run_end(s, from, kind);
    assert forall|i: int| t.len() + from <= i < t.len() + end implies continues(
        kind,
        #[trigger] ts[i],
    ) by {
        assert(ts[i] == s[i - t.len()]);
    }
    if end < s.len() {
        assert(ts[t.len() + end] == s[end]);
    }
    lemma_run_end_is(ts, t.len() + from, kind, t.len() + end);
}

/// A scan never looks back. Whatever stands before the cursor, the token is
/// the same, and the cursor ends the same distance further on.
pub proof fn lemma_scan_ignores_past(t: Seq<char>, s: Seq<char>, pos: int)
    requires
        0 <= pos <= s.len(),
    ensures
        scan(t + s, t.len() + pos).0 == scan(s, pos).0,
        scan(t + s, t.len() + pos).1 == t.len() + scan(s, pos).1,
{
    let ts = t + s;
    let n = t.len() as int;
    lemma_lexeme_start_shifted(t, s, pos);
    lemma_lexeme_start(s, pos);
    let start = lexeme_start(s, pos);
    if start < s.len() {
        assert(ts[n + start] == s[start]);
        if start + 1 < s.len() {
            assert(ts[n + start + 1] == s[start + 1]);
        }
        assert(hex_prefix_at(ts, n + start) == hex_prefix_at(s, start));
        let kind = kind_at(s, start);
        assert(kind_at(ts, n + start) == kind);
        lemma_run_end_shifted(t, s, start + opening(kind), kind);
        lemma_run_end(s, start + opening(kind), kind);
        let end = run_end(s, start + opening(kind), kind);
        if end < s.len() {
            assert(ts[n + end] == s[end]);
        }
        assert(ts.subrange(n + start, n + end) =~= s.subrange(start, end));
    }
}

/// Separators put before a buffer do not show: the first token is the same,
/// and the cursor stands as far behind the lexeme as it did.
pub proof fn lemma_prepended_separators(t: Seq<char>, s: Seq<char>)
    requires
        forall|i: int| 0 <= i < t.len() ==> !starts_lexeme(#[trigger] t[i]),
    ensures
        scan(t + s, 0).0 == scan(s, 0).0,
        scan(t + s, 0).1 == t.len() + scan(s, 0).1,
{
    let ts = t + s;
    assert forall|i: int| 0 <= i < t.len() implies !starts_lexeme(#[trigger] ts[i]) by {
        assert(ts[i] == t[i]);
    }
    lemma_leading_separators(ts, 0, t.len() as int);
    lemma_scan_ignores_past(t, s, 0);
}

/// A run in a buffer is the same run in the buffer with more appended, as
/// long as what is appended does not begin with a character that extends it.
proof fn lemma_run_end_appended(s: Seq<char>, t: Seq<char>, from: int, kind: RunKind)
    requires
        0 <= from <= s.len(),
        t.len() > 0 ==> !continues(kind, t[0]),
    ensures
        run_end(s + t, from, kind) == run_end(s, from, kind),
{
    lemma_run_end(s, from, kind);
    let end = run_end(s, from, kind);
    assert forall|i: int| from <= i < end implies continues(kind, #[trigger] (s + t)[i]) by {
        assert((s + t)[i] == s[i]);
    }
    if end < s.len() {
        assert((s + t)[end] == s[end]);
    } else if t.len() > 0 {
        assert((s + t)[end] == t[0]);
    }
    lemma_run_end_is(s + t, from, kind, end);
}

/// Separators behind a lexeme do not show: a scan that yields a token other
/// than `EOF` yields the same token, and leaves the cursor at the same place,
/// when text that begins with a separator is appended to the buffer.
pub proof fn lemma_trailing_separators(s: Seq<char>, t: Seq<char>, pos: int)
    requires
        0 <= pos <= s.len(),
        t.len() > 0 ==> !starts_lexeme(t[0]),
        scan(s, pos).0 != Lexeme::EOF,
    ensures
        scan(s + t, pos) == scan(s, pos),
{
    let st = s + t;
    lemma_lexeme_start(s, pos);
    let start = lexeme_start(s, pos);
    assert forall|i: int| pos <= i < start implies !starts_lexeme(#[trigger] st[i]) by {
        assert(st[i] == s[i]);
    }
    assert(st[start] == s[start]);
    lemma_lexeme_start_is(st, pos, start);
    if start + 1 < s.len() {
        assert(st[start + 1] == s[start + 1]);
    } else if t.len() > 0 {
        assert(st[start + 1] == t[0]);
    }
    assert(hex_prefix_at(st, start) == hex_prefix_at(s, start));
    let kind = kind_at(s, start);
    assert(kind_at(st, start) == kind);
    let body = start + opening(kind);
    if t.len() > 0 && continues(kind, t[0]) {
        lemma_run_has_no_separator(kind, t[0]);
    }
    lemma_run_end_appended(s, t, body, kind);
    lemma_run_end(s, body, kind);
    let end = run_end(s, body, kind);
    if end < s.len() {
        assert(st[end] == s[end]);
    } else if t.len() > 0 {
        assert(st[end] == t[0]);
    }
    assert(st.subrange(start, end) =~= s.subrange(start, end));
}

/// A word never yields `Invalid`: where a lexeme starts with a letter, the
/// token is the keyword or an identifier.
pub proof fn lemma_word_is_valid(s: Seq<char>, pos: int)
    requires
        0 <= pos <= s.len(),
        lexeme_start(s, pos) < s.len(),
        letter(s[lexeme_start(s, pos)]),
    ensures
        scan(s, pos).0 == resolved(s.subrange(lexeme_start(s, pos), scan(s, pos).1)),
{
    lemma_lexeme_start(s, pos);
    lemma_run_end(s, lexeme_start(s, pos) + 1, RunKind::Word);
}

/// A decimal numeral that runs into a letter yields `Invalid`, and the
/// cursor passes that letter.
pub proof fn lemma_numeral_then_letter(s: Seq<char>, start: int, end: int)
    requires
        0 <= start < end < s.len(),
        forall|i: int| start <= i < end ==> decimal_digit(#[trigger] s[i]),
        !hex_prefix_at(s, start),
        letter(s[end]),
    ensures
        scan(s, start) == (Lexeme::Invalid, end + 1),
{
    assert(decimal_digit(s[start]));
    lemma_lexeme_start_is(s, start, start);
    lemma_run_end_is(s, start + 1, RunKind::Numeral, end);
}

/// A decimal numeral that ends at a separator or at the end of the buffer
/// yields an integer literal with exactly its digits.
pub proof fn lemma_numeral(s: Seq<char>, start: int, end: int)
    requires
        0 <= start < end <= s.len(),
        forall|i: int| start <= i < end ==> decimal_digit(#[trigger] s[i]),
        !hex_prefix_at(s, start),
        end < s.len() ==> !starts_lexeme(s[end]),
    ensures
        scan(s, start) == (Lexeme::IntegerLiteral(s.subrange(start, end)), end),
{
    assert(decimal_digit(s[start]));
    lemma_lexeme_start_is(s, start, start);
    lemma_run_end_is(s, start + 1, RunKind::Numeral, end);
}

/// A hexadecimal numeral, prefix and digits, that ends at a separator or at
/// the end of the buffer yields a hexadecimal literal with the prefix and the
/// digits as its text.
pub proof fn lemma_hex_numeral(s: Seq<char>, start: int, end: int)
    requires
        hex_prefix_at(s, start),
        start + 2 <= end <= s.len(),
        forall|i: int| start + 2 <= i < end ==> hex_digit(#[trigger] s[i]),
        end < s.len() ==> !starts_lexeme(s[end]),
    ensures
        scan(s, start) == (Lexeme::HexLiteral(s.subrange(start, end)), end),
{
    lemma_lexeme_start_is(s, start, start);
    lemma_run_end_is(s, start + 2, RunKind::Hex, end);
}

/// A hexadecimal numeral that runs into a letter which is no hexadecimal
/// digit yields `Invalid`, and the cursor passes that letter.
pub proof fn lemma_hex_then_letter(s: Seq<char>, start: int, end: int)
    requires
        hex_prefix_at(s, start),
        start + 2 <= end < s.len(),
        forall|i: int| start + 2 <= i < end ==> hex_digit(#[trigger] s[i]),
        letter(s[end]),
        !hex_digit(s[end]),
    ensures
        scan(s, start) == (Lexeme::Invalid, end + 1),
{
    lemma_lexeme_start_is(s, start, start);
    lemma_run_end_is(s, start + 2, RunKind::Hex, end);
}

/// `Invalid` comes exactly where the run of a lexeme stops at a letter, and
/// then the cursor passes that letter.
pub proof fn lemma_invalid(s: Seq<char>, pos: int)
    requires
        0 <= pos <= s.len(),
        lexeme_start(s, pos) < s.len(),
    ensures
        ({
            let start = lexeme_start(s, pos);
            let kind = kind_at(s, start);
            let end = run_end(s, start + opening(kind), kind);
            &&& scan(s, pos).0 == Lexeme::Invalid <==> end < s.len() && letter(s[end])
            &&& scan(s, pos).0 == Lexeme::Invalid ==> kind != RunKind::Word && scan(s, pos).1
                == end + 1
        }),
{
    lemma_lexeme_start(s, pos);
    let start = lexeme_start(s, pos);
    let kind = kind_at(s, start);
    lemma_run_end(s, start + opening(kind), kind);
}

} // verus!
