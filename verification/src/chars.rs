//! The character classes of the language, each as a predicate for contracts
//! and as the executable test that computes it.

use vstd::prelude::*;
use crate::std_specs::{unicode_alphabetic, unicode_numeric};

verus! {

/// The character that stands for "no more input". The cursor shows it once it
/// has run off the end of the text, and a string literal cannot hold it.
pub const NUL: char = '\0';

/// Space, tab, carriage return and newline separate tokens.
pub open spec fn spec_is_whitespace(c: char) -> bool {
    c == ' ' || c == '\t' || c == '\r' || c == '\n'
}

/// Whether `c` is whitespace.
#[verifier::when_used_as_spec(spec_is_whitespace)]
pub fn is_whitespace(c: char) -> (b: bool)
    ensures
        b == spec_is_whitespace(c),
{
    c == ' ' || c == '\t' || c == '\r' || c == '\n'
}

/// The operators of one character: `+ - / * % < > ^ ! ~`.
pub open spec fn spec_is_operator_char(c: char) -> bool {
    c == '+' || c == '-' || c == '/' || c == '*' || c == '%' || c == '<' || c == '>' || c == '^'
        || c == '!' || c == '~'
}

/// Whether `c` alone is an operator.
#[verifier::when_used_as_spec(spec_is_operator_char)]
pub fn is_operator_char(c: char) -> (b: bool)
    ensures
        b == spec_is_operator_char(c),
{
    c == '+' || c == '-' || c == '/' || c == '*' || c == '%' || c == '<' || c == '>' || c == '^'
        || c == '!' || c == '~'
}

/// The symbols of one character: `; : { } ( ) [ ] . , =`.
pub open spec fn spec_is_symbol_char(c: char) -> bool {
    c == ';' || c == ':' || c == '{' || c == '}' || c == '(' || c == ')' || c == '[' || c == ']'
        || c == '.' || c == ',' || c == '='
}

/// Whether `c` alone is a symbol.
#[verifier::when_used_as_spec(spec_is_symbol_char)]
pub fn is_symbol_char(c: char) -> (b: bool)
    ensures
        b == spec_is_symbol_char(c),
{
    c == ';' || c == ':' || c == '{' || c == '}' || c == '(' || c == ')' || c == '[' || c == ']'
        || c == '.' || c == ',' || c == '='
}

/// The operators of two characters:
/// `== != <= >= || && ++ -- << >> // ** += -= /= *=`.
pub open spec fn spec_is_pair_operator(first: char, second: char) -> bool {
    ||| first == '=' && second == '='
    ||| first == '!' && second == '='
    ||| first == '<' && second == '='
    ||| first == '>' && second == '='
    ||| first == '|' && second == '|'
    ||| first == '&' && second == '&'
    ||| first == '+' && second == '+'
    ||| first == '-' && second == '-'
    ||| first == '<' && second == '<'
    ||| first == '>' && second == '>'
    ||| first == '/' && second == '/'
    ||| first == '*' && second == '*'
    ||| first == '+' && second == '='
    ||| first == '-' && second == '='
    ||| first == '/' && second == '='
    ||| first == '*' && second == '='
}

/// Whether the two characters together are an operator.
#[verifier::when_used_as_spec(spec_is_pair_operator)]
pub fn is_pair_operator(first: char, second: char) -> (b: bool)
    ensures
        b == spec_is_pair_operator(first, second),
{
    if second == '=' {
        first == '=' || first == '!' || first == '<' || first == '>' || first == '+' || first == '-'
            || first == '/' || first == '*'
    } else if second == first {
        first == '|' || first == '&' || first == '+' || first == '-' || first == '<' || first == '>'
            || first == '/' || first == '*'
    } else {
        false
    }
}

/// The symbols of two characters: `@{` and `${`.
pub open spec fn spec_is_pair_symbol(first: char, second: char) -> bool {
    (first == '@' || first == '$') && second == '{'
}

/// Whether the two characters together are a symbol.
#[verifier::when_used_as_spec(spec_is_pair_symbol)]
pub fn is_pair_symbol(first: char, second: char) -> (b: bool)
    ensures
        b == spec_is_pair_symbol(first, second),
{
    (first == '@' || first == '$') && second == '{'
}

/// A string literal is delimited by `'` or by `"`.
pub open spec fn spec_is_quote(c: char) -> bool {
    c == '\'' || c == '"'
}

/// Whether `c` delimits a string literal.
#[verifier::when_used_as_spec(spec_is_quote)]
pub fn is_quote(c: char) -> (b: bool)
    ensures
        b == spec_is_quote(c),
{
    c == '\'' || c == '"'
}

/// The decimal digits `0` to `9`.
pub open spec fn spec_is_digit(c: char) -> bool {
    '0' <= c <= '9'
}

/// Whether `c` is a decimal digit.
#[verifier::when_used_as_spec(spec_is_digit)]
pub fn is_digit(c: char) -> (b: bool)
    ensures
        b == spec_is_digit(c),
{
    '0' <= c && c <= '9'
}

/// An identifier or keyword is made of alphanumeric characters, `_` and `$`.
pub open spec fn spec_is_identifier_part(c: char) -> bool {
    unicode_alphabetic(c) || unicode_numeric(c) || c == '_' || c == '$'
}

/// Whether `c` can stand in an identifier or keyword.
#[verifier::when_used_as_spec(spec_is_identifier_part)]
pub fn is_identifier_part(c: char) -> (b: bool)
    ensures
        b == spec_is_identifier_part(c),
{
    c.is_alphanumeric() || c == '_' || c == '$'
}

/// The character that a backslash followed by `c` denotes inside a quoted
/// string literal, if there is one: `\\`, `\'` and `\"` denote the second
/// character itself, `\n` a newline, `\r` a carriage return, `\t` a tab.
pub open spec fn spec_escape_value(c: char) -> Option<char> {
    if c == '\\' || c == '\'' || c == '"' {
        Some(c)
    } else if c == 'n' {
        Some('\n')
    } else if c == 'r' {
        Some('\r')
    } else if c == 't' {
        Some('\t')
    } else {
        None
    }
}

/// The character that a backslash followed by `c` denotes, if it denotes one.
#[verifier::when_used_as_spec(spec_escape_value)]
pub fn escape_value(c: char) -> (value: Option<char>)
    ensures
        value == spec_escape_value(c),
{
    if c == '\\' || c == '\'' || c == '"' {
        Some(c)
    } else if c == 'n' {
        Some('\n')
    } else if c == 'r' {
        Some('\r')
    } else if c == 't' {
        Some('\t')
    } else {
        None
    }
}

/// The reserved words: `proc event fn if elif else while forever for in
/// break private`.
pub open spec fn is_keyword(text: Seq<char>) -> bool {
    ||| text == "proc"@
    ||| text == "event"@
    ||| text == "fn"@
    ||| text == "if"@
    ||| text == "elif"@
    ||| text == "else"@
    ||| text == "while"@
    ||| text == "forever"@
    ||| text == "for"@
    ||| text == "in"@
    ||| text == "break"@
    ||| text == "private"@
}

/// What the character under the cursor starts.
#[derive(Debug, Clone, Copy, PartialEq, Eq, Structural)]
pub enum Start {
    /// An operator of two characters.
    PairOperator,
    /// A symbol of two characters.
    PairSymbol,
    /// An operator of one character.
    Operator,
    /// A symbol of one character.
    Symbol,
    /// A comment.
    Comment,
    /// A raw string literal: `r` with a quote behind it.
    RawString,
    /// A quoted string literal.
    QuotedString,
    /// An identifier or keyword.
    Identifier,
    /// A number literal.
    Number,
    /// Nothing: no token starts with this character.
    Unknown,
}

/// What `current` starts when `next` comes after it, `alphabetic` telling
/// whether `current` is alphabetic. The rules are tried in this order, and the
/// first that applies decides: the two characters together are an operator, or
/// a symbol; the first alone is an operator, or a symbol; it is `#`; it is `r`
/// in front of a quote; it is a quote; it is alphabetic, `_` or `$`; it is a
/// digit.
pub open spec fn spec_dispatch(current: char, next: Option<char>, alphabetic: bool) -> Start {
    if next matches Some(second) && is_pair_operator(current, second) {
        Start::PairOperator
    } else if next matches Some(second) && is_pair_symbol(current, second) {
        Start::PairSymbol
    } else if is_operator_char(current) {
        Start::Operator
    } else if is_symbol_char(current) {
        Start::Symbol
    } else if current == '#' {
        Start::Comment
    } else if current == 'r' && (next matches Some(second) && is_quote(second)) {
        Start::RawString
    } else if is_quote(current) {
        Start::QuotedString
    } else if alphabetic || current == '_' || current == '$' {
        Start::Identifier
    } else if is_digit(current) {
        Start::Number
    } else {
        Start::Unknown
    }
}

/// Decides what `current` starts.
#[verifier::when_used_as_spec(spec_dispatch)]
pub fn dispatch(current: char, next: Option<char>, alphabetic: bool) -> (start: Start)
    ensures
        start == spec_dispatch(current, next, alphabetic),
{
    let pair = match next {
        Some(second) => {
            if is_pair_operator(current, second) {
                Some(Start::PairOperator)
            } else if is_pair_symbol(current, second) {
                Some(Start::PairSymbol)
            } else {
                None
            }
        },
        None => None,
    };
    match pair {
        Some(start) => start,
        None => {
            if is_operator_char(current) {
                Start::Operator
            } else if is_symbol_char(current) {
                Start::Symbol
            } else if current == '#' {
                Start::Comment
            } else if current == 'r' && (match next {
                Some(second) => is_quote(second),
                None => false,
            }) {
                Start::RawString
            } else if is_quote(current) {
                Start::QuotedString
            } else if alphabetic || current == '_' || current == '$' {
                Start::Identifier
            } else if is_digit(current) {
                Start::Number
            } else {
                Start::Unknown
            }
        },
    }
}

} // verus!
