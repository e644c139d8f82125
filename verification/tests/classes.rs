use script_lexer::chars::{
    dispatch, escape_value, is_digit, is_identifier_part, is_operator_char, is_pair_operator,
    is_pair_symbol, is_quote, is_symbol_char, is_whitespace, Start,
};

#[test]
fn whitespace_is_four_characters() {
    for c in [' ', '\t', '\r', '\n'] {
        assert!(is_whitespace(c));
    }
    for c in ['\u{b}', '\u{c}', '\u{a0}', 'a', '\0'] {
        assert!(!is_whitespace(c));
    }
}

#[test]
fn classes_of_single_characters() {
    let operators = "+-/*%<>^!~";
    let symbols = ";:{}()[].,=";
    for code in 0u8..128 {
        let c = code as char;
        assert_eq!(is_operator_char(c), operators.contains(c));
        assert_eq!(is_symbol_char(c), symbols.contains(c));
        assert_eq!(is_quote(c), c == '\'' || c == '"');
        assert_eq!(is_digit(c), c.is_ascii_digit());
    }
}

#[test]
fn pairs() {
    let operators = [
        "==", "!=", "<=", ">=", "||", "&&", "++", "--", "<<", ">>", "//", "**", "+=", "-=", "/=",
        "*=",
    ];
    for first in 0u8..128 {
        for second in 0u8..128 {
            let pair: String = [first as char, second as char].iter().collect();
            assert_eq!(
                is_pair_operator(first as char, second as char),
                operators.contains(&pair.as_str())
            );
            assert_eq!(
                is_pair_symbol(first as char, second as char),
                pair == "@{" || pair == "${"
            );
        }
    }
}

#[test]
fn identifier_characters() {
    for c in ['a', 'Z', '_', '$', '0', '9', 'é', '京', '²'] {
        assert!(is_identifier_part(c));
    }
    for c in [' ', '-', '.', '#', '\'', '@', '\0', '💝'] {
        assert!(!is_identifier_part(c));
    }
}

#[test]
fn escapes() {
    assert_eq!(escape_value('\\'), Some('\\'));
    assert_eq!(escape_value('\''), Some('\''));
    assert_eq!(escape_value('"'), Some('"'));
    assert_eq!(escape_value('n'), Some('\n'));
    assert_eq!(escape_value('r'), Some('\r'));
    assert_eq!(escape_value('t'), Some('\t'));
    for c in ['0', 'a', 'N', 'x', 'u', ' ', '\n', '\0'] {
        assert_eq!(escape_value(c), None);
    }
}

#[test]
fn dispatch_tries_pairs_first() {
    assert_eq!(dispatch('=', Some('='), false), Start::PairOperator);
    assert_eq!(dispatch('<', Some('<'), false), Start::PairOperator);
    assert_eq!(dispatch('$', Some('{'), false), Start::PairSymbol);
    assert_eq!(dispatch('@', Some('{'), false), Start::PairSymbol);
    assert_eq!(dispatch('=', Some('x'), false), Start::Symbol);
    assert_eq!(dispatch('=', None, false), Start::Symbol);
    assert_eq!(dispatch('<', Some('x'), false), Start::Operator);
    assert_eq!(dispatch('$', Some('x'), false), Start::Identifier);
    assert_eq!(dispatch('@', Some('x'), false), Start::Unknown);
}

#[test]
fn dispatch_of_strings_and_comments() {
    assert_eq!(dispatch('#', Some('x'), false), Start::Comment);
    assert_eq!(dispatch('#', None, false), Start::Comment);
    assert_eq!(dispatch('r', Some('\''), true), Start::RawString);
    assert_eq!(dispatch('r', Some('"'), true), Start::RawString);
    assert_eq!(dispatch('r', Some('x'), true), Start::Identifier);
    assert_eq!(dispatch('r', None, true), Start::Identifier);
    assert_eq!(dispatch('\'', Some('a'), false), Start::QuotedString);
    assert_eq!(dispatch('"', None, false), Start::QuotedString);
}

#[test]
fn dispatch_of_words_numbers_and_the_rest() {
    assert_eq!(dispatch('x', Some('1'), true), Start::Identifier);
    assert_eq!(dispatch('_', None, false), Start::Identifier);
    assert_eq!(dispatch('$', None, false), Start::Identifier);
    assert_eq!(dispatch('7', Some('.'), false), Start::Number);
    assert_eq!(dispatch('0', None, false), Start::Number);
    assert_eq!(dispatch('7', None, true), Start::Identifier);
    assert_eq!(dispatch('?', None, false), Start::Unknown);
    assert_eq!(dispatch('\\', Some('n'), false), Start::Unknown);
    assert_eq!(dispatch('\0', None, false), Start::Unknown);
    assert_eq!(dispatch(' ', None, false), Start::Unknown);
}
