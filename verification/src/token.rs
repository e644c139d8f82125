//! The token model: what the scanner hands to a parser.

use vstd::prelude::*;
use vstd::std_specs::cmp::PartialEqSpecImpl;

verus! {

/// The category of a token.
#[derive(Debug, Clone, Copy, PartialEq, Eq, Structural)]
pub enum TokenType {
    /// A number literal: digits with at most one decimal point.
    Number,
    /// A comment, from `#` to the end of the line.
    Comment,
    /// A string literal, raw or quoted.
    Str,
    /// A symbol, of one character or of two.
    Symbol,
    /// An operator, of one character or of two.
    Operator,
    /// A name that is no reserved word.
    Identifier,
    /// A reserved word.
    Keyword,
    /// The end of the input.
    EndOfFile,
    /// No token. The scanner never yields it: it reports a failure as a
    /// `LexError`.
    Error,
}

/// A classified piece of source text.
///
/// For symbols, operators, identifiers, keywords and numbers `content` is the
/// matched text itself; for a comment it is the text after the `#`; for a
/// string literal it is the resolved content without the delimiting quotes.
#[derive(Debug)]
pub struct Token {
    pub token_type: TokenType,
    pub content: String,
}

/// The mathematical value of a [`Token`]: its kind and its text as a sequence
/// of characters.
pub struct TokenView {
    pub token_type: TokenType,
    pub content: Seq<char>,
}

impl View for Token {
    type V = TokenView;

    open spec fn view(&self) -> TokenView {
        TokenView { token_type: self.token_type, content: self.content@ }
    }
}

/// The mathematical values of a sequence of tokens, in the same order.
pub open spec fn token_views(tokens: Seq<Token>) -> Seq<TokenView> {
    tokens.map_values(|token: Token| token@)
}

impl Token {
    /// A token of the given kind and text.
    pub fn new(token_type: TokenType, content: String) -> (token: Token)
        ensures
            token.token_type == token_type,
            token.content == content,
    {
        Token { token_type, content }
    }
}

impl Clone for Token {
    fn clone(&self) -> (token: Token)
        ensures
            token == *self,
    {
        Token { token_type: self.token_type, content: self.content.clone() }
    }
}

/// Two tokens are equal when they have the same kind and the same text.
impl PartialEq for Token {
    fn eq(&self, other: &Token) -> (equal: bool) {
        self.token_type == other.token_type && self.content == other.content
    }
}

impl PartialEqSpecImpl for Token {
    open spec fn obeys_eq_spec() -> bool {
        true
    }

    open spec fn eq_spec(&self, other: &Token) -> bool {
        self@ == other@
    }
}

} // verus!
