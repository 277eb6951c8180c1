use lexer::chars::{is_decimal_digit, is_hex_digit, is_hex_marker, is_letter};
use lexer::lex::{extends_run, is_lexeme_start};
use lexer::token::{finish, resolve, RunKind, Token};

#[test]
fn resolve_knows_the_keyword() {
    assert_eq!(Token::Fn, resolve(String::from("fn")));
}

#[test]
fn resolve_is_exact_about_spelling() {
    for word in ["Fn", "FN", "fN", "f", "n", "fn ", " fn", "fnn", "nf", "func", ""] {
        assert_eq!(
            Token::Identifier(String::from(word)),
            resolve(String::from(word))
        );
    }
}

#[test]
fn finish_goes_by_the_kind_of_run() {
    assert_eq!(Token::Fn, finish(RunKind::Word, String::from("fn")));
    assert_eq!(
        Token::Identifier(String::from("abc")),
        finish(RunKind::Word, String::from("abc"))
    );
    assert_eq!(
        Token::IntegerLiteral(String::from("12")),
        finish(RunKind::Numeral, String::from("12"))
    );
    assert_eq!(
        Token::HexLiteral(String::from("0x1F")),
        finish(RunKind::Hex, String::from("0x1F"))
    );
}

#[test]
fn ascii_letters_are_letters() {
    for c in ('a'..='z').chain('A'..='Z') {
        assert!(is_letter(c));
    }
    for c in ['0', '9', ' ', '_', '@', '[', '`', '{', '\n', '\0', '\u{7f}'] {
        assert!(!is_letter(c));
    }
}

#[test]
fn letters_beyond_ascii_follow_unicode() {
    for c in ['é', 'ß', 'Ω', 'я', '京', 'ª', 'µ'] {
        assert!(is_letter(c));
    }
    for c in ['→', '€', '½', '²', '\u{a0}', '—', '💝', '\u{80}'] {
        assert!(!is_letter(c));
    }
}

#[test]
fn decimal_digits_are_ascii() {
    for c in '0'..='9' {
        assert!(is_decimal_digit(c));
    }
    for c in ['/', ':', 'a', '٣', '１', '½', 'Ⅷ'] {
        assert!(!is_decimal_digit(c));
    }
}

#[test]
fn hex_digits_are_digits_and_six_letters() {
    for c in "0123456789abcdefABCDEF".chars() {
        assert!(is_hex_digit(c));
    }
    for c in ['g', 'G', 'x', 'X', '`', '@', '/', ':', ' ', 'ａ'] {
        assert!(!is_hex_digit(c));
    }
}

#[test]
fn hex_marker_is_x_in_either_case() {
    assert!(is_hex_marker('x'));
    assert!(is_hex_marker('X'));
    for c in ['0', 'h', 'y', 'w', ' '] {
        assert!(!is_hex_marker(c));
    }
}

#[test]
fn lexemes_start_at_letters_and_digits() {
    for c in ['a', 'Z', '0', '9', 'é'] {
        assert!(is_lexeme_start(c));
    }
    for c in [' ', '\n', '_', '+', '→', '½'] {
        assert!(!is_lexeme_start(c));
    }
}

#[test]
fn runs_extend_by_kind() {
    assert!(extends_run(RunKind::Word, 'a'));
    assert!(extends_run(RunKind::Word, '7'));
    assert!(extends_run(RunKind::Word, 'é'));
    assert!(!extends_run(RunKind::Word, '_'));
    assert!(extends_run(RunKind::Numeral, '7'));
    assert!(!extends_run(RunKind::Numeral, 'a'));
    assert!(!extends_run(RunKind::Numeral, ' '));
    assert!(extends_run(RunKind::Hex, '7'));
    assert!(extends_run(RunKind::Hex, 'f'));
    assert!(extends_run(RunKind::Hex, 'F'));
    assert!(!extends_run(RunKind::Hex, 'g'));
    assert!(!extends_run(RunKind::Hex, 'x'));
}
