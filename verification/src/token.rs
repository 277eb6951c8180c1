//! The token vocabulary, and the rules that turn a collected run of characters
//! into a token.

use vstd::prelude::*;
use vstd::string::StringExecFns;

verus! {

/// A token as the scanner hands it out.
#[derive(Debug, PartialEq)]
pub enum Token {
    /// No lexeme is left in the buffer.
    EOF,
    /// The reserved word `fn`.
    Fn,
    /// A word that is not reserved: a letter followed by letters and digits.
    Identifier(String),
    /// A run of decimal digits.
    IntegerLiteral(String),
    /// A hexadecimal numeral with its `0x` or `0X` prefix.
    HexLiteral(String),
    /// A numeral that ran into a letter.
    Invalid,
}

/// The mathematical value of a `Token`: the same variants, with the text as
/// a sequence of characters.
pub enum Lexeme {
    EOF,
    Fn,
    Identifier(Seq<char>),
    IntegerLiteral(Seq<char>),
    HexLiteral(Seq<char>),
    Invalid,
}

impl View for Token {
    type V = Lexeme;

    open spec fn view(&self) -> Lexeme {
        match self {
            Token::EOF => Lexeme::EOF,
            Token::Fn => Lexeme::Fn,
            Token::Identifier(text) => Lexeme::Identifier(text@),
            Token::IntegerLiteral(text) => Lexeme::IntegerLiteral(text@),
            Token::HexLiteral(text) => Lexeme::HexLiteral(text@),
            Token::Invalid => Lexeme::Invalid,
        }
    }
}

/// What kind of lexeme a run of characters is collected for.
#[derive(Debug, PartialEq, Eq, Clone, Copy, Structural)]
pub enum RunKind {
    /// A keyword or an identifier.
    Word,
    /// A decimal numeral.
    Numeral,
    /// A hexadecimal numeral, after its prefix.
    Hex,
}

/// `String::push`: trusted to append the character to the end of the string
/// and to leave what was there in place.
pub assume_specification[ String::push ](s: &mut String, c: char)
    ensures
        final(s)@ == old(s)@.push(c),
;

/// The characters of the one reserved word, `fn`.
pub open spec fn fn_keyword() -> Seq<char> {
    seq!['f', 'n']
}

/// The token of a collected word: the keyword, if the word is spelled exactly
/// like it, else an identifier with the word as its text.
pub open spec fn resolved(word: Seq<char>) -> Lexeme {
    if word == fn_keyword() {
        Lexeme::Fn
    } else {
        Lexeme::Identifier(word)
    }
}

/// The token of a finished run of the given kind.
pub open spec fn finished(kind: RunKind, text: Seq<char>) -> Lexeme {
    match kind {
        RunKind::Word => resolved(text),
        RunKind::Numeral => Lexeme::IntegerLiteral(text),
        RunKind::Hex => Lexeme::HexLiteral(text),
    }
}

/// Tells a keyword from an identifier. Every word resolves; the comparison
/// is by exact spelling, case included.
pub fn resolve(word: String) -> (token: Token)
    ensures
        token@ == resolved(word@),
{
    let keyword = String::from_str("fn");
    proof {
        reveal_strlit("fn");
        assert(keyword@ =~= fn_keyword());
    }
    if word == keyword {
        Token::Fn
    } else {
        Token::Identifier(word)
    }
}

/// Makes the token of a finished run: a word is resolved, a numeral keeps
/// its digits, a hexadecimal numeral its prefix and digits.
pub fn finish(kind: RunKind, text: String) -> (token: Token)
    ensures
        token@ == finished(kind, text@),
{
    match kind {
        RunKind::Word => resolve(text),
        RunKind::Numeral => Token::IntegerLiteral(text),
        RunKind::Hex => Token::HexLiteral(text),
    }
}

} // verus!
