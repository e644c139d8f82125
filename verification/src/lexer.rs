//! The scanner: a cursor over a text that hands out one token per request.

use vstd::prelude::*;
use crate::chars::{
    dispatch, escape_value, is_digit, is_identifier_part, is_keyword, is_quote, is_whitespace,
    Start, NUL,
};
use crate::error::LexError;
use crate::grammar::{
    after, char_at, digits_end, found, identifier_end, lemma_failure_position,
    lemma_scan_advances, lemma_unescape_concat, line_end, next_at, number_end, quoted_stop,
    raw_stop, scan_token, string_literal, tokens_from, unescape, well_escaped, whitespace_end,
    Scan,
};
use crate::token::{token_views, Token, TokenType, TokenView};

verus! {

/// The mathematical value of what a request for a token returns.
pub open spec fn result_view(result: Result<Token, LexError>) -> Result<TokenView, LexError> {
    match result {
        Ok(token) => Ok(token@),
        Err(error) => Err(error),
    }
}

/// The mathematical value of what a request for all the tokens returns.
pub open spec fn sequence_view(result: Result<Vec<Token>, LexError>) -> Result<
    Seq<TokenView>,
    LexError,
> {
    match result {
        Ok(tokens) => Ok(token_views(tokens@)),
        Err(error) => Err(error),
    }
}

/// A scanner over one text.
///
/// It holds the characters of the text and a cursor into them. The character
/// under the cursor is the current character; once the cursor has reached the
/// length of the text there is none, and [`NUL`] stands in for it. Positions
/// count characters, not bytes.
#[derive(Debug)]
pub struct Lexer {
    index: usize,
    source: Vec<char>,
}

impl Lexer {
    /// The text that is scanned.
    pub closed spec fn text(&self) -> Seq<char> {
        self.source@
    }

    /// The cursor: how many characters of the text lie behind it.
    pub closed spec fn position(&self) -> int {
        self.index as int
    }

    #[verifier::type_invariant]
    spec fn cursor_on_text(&self) -> bool {
        self.index <= self.source.len()
    }

    /// A scanner at the start of `source`.
    pub fn new(source: &str) -> (lexer: Lexer)
        ensures
            lexer.text() == source@,
            lexer.position() == 0,
    {
        let mut chars: Vec<char> = Vec::new();
        for c in it: source.chars()
            invariant
                it.seq() == source@,
                chars@ == source@.take(it.index()),
        {
            chars.push(c);
        }
        Lexer { index: 0, source: chars }
    }

    /// The position of the cursor, counted in characters from the start of
    /// the text.
    pub fn index(&self) -> (index: usize)
        ensures
            index == self.position(),
            index <= self.text().len(),
    {
        proof {
            use_type_invariant(self);
        }
        self.index
    }

    /// Whether the cursor has reached the end of the text.
    fn ended(&self) -> (at_end: bool)
        ensures
            at_end == (self.position() == self.text().len()),
            0 <= self.position() <= self.text().len(),
    {
        proof {
            use_type_invariant(self);
        }
        self.source.len() == self.index
    }

    /// The current character.
    fn current(&self) -> (c: char)
        ensures
            c == char_at(self.text(), self.position()),
    {
        proof {
            use_type_invariant(self);
        }
        if self.index < self.source.len() {
            self.source[self.index]
        } else {
            NUL
        }
    }

    /// The character after the current one, if the text has one there. The
    /// cursor does not move.
    fn peek_next(&self) -> (next: Option<char>)
        ensures
            next == next_at(self.text(), self.position()),
    {
        proof {
            use_type_invariant(self);
        }
        if self.index < self.source.len() && self.index + 1 < self.source.len() {
            Some(self.source[self.index + 1])
        } else {
            None
        }
    }

    /// Moves the cursor to the next character. At the end of the text it
    /// stays where it is.
    fn scan_char(&mut self)
        ensures
            final(self).text() == old(self).text(),
            final(self).position() == if old(self).position() < old(self).text().len() {
                old(self).position() + 1
            } else {
                old(self).position()
            },
            0 <= final(self).position() <= final(self).text().len(),
    {
        proof {
            use_type_invariant(&*self);
        }
        if self.index < self.source.len() {
            self.index += 1;
        }
    }

    /// Produces the next token and moves the cursor behind it.
    ///
    /// At the end of the text the token is the end-of-input token, with no
    /// text, and the cursor stays. A failure leaves the cursor at the
    /// position that it reports.
    pub fn next_token(&mut self) -> (result: Result<Token, LexError>)
        ensures
            final(self).text() == old(self).text(),
            scan_token(old(self).text(), old(self).position()) == (Scan {
                result: result_view(result),
                end: final(self).position(),
            }),
            old(self).position() <= final(self).position() <= final(self).text().len(),
            result matches Err(error) ==> error.position() == final(self).position(),
    {
        proof {
            use_type_invariant(&*self);
            lemma_scan_advances(self.text(), self.position());
            if scan_token(self.text(), self.position()).result is Err {
                lemma_failure_position(self.text(), self.position());
            }
        }
        if self.ended() {
            return Ok(Token::new(TokenType::EndOfFile, String::new()));
        }
        self.skip_whitespace();
        if self.ended() {
            return Err(LexError::UnknownCharacter(self.index));
        }
        let c = self.current();
        let next = self.peek_next();
        match dispatch(c, next, c.is_alphabetic()) {
            Start::PairOperator => {
                let op = self.take_two(c, next.unwrap());
                Ok(Token::new(TokenType::Operator, op))
            },
            Start::PairSymbol => {
                let op = self.take_two(c, next.unwrap());
                Ok(Token::new(TokenType::Symbol, op))
            },
            Start::Operator => {
                let op = self.take_one(c);
                Ok(Token::new(TokenType::Operator, op))
            },
            Start::Symbol => {
                let op = self.take_one(c);
                Ok(Token::new(TokenType::Symbol, op))
            },
            Start::Comment => Ok(self.get_comment()),
            Start::RawString => {
                self.scan_char();
                self.get_string_literal(true)
            },
            Start::QuotedString => self.get_string_literal(false),
            Start::Identifier => Ok(self.get_identifier_or_keyword()),
            Start::Number => Ok(self.get_number_literal()),
            Start::Unknown => Err(LexError::UnknownCharacter(self.index)),
        }
    }

    /// Passes over whitespace.
    fn skip_whitespace(&mut self)
        ensures
            final(self).text() == old(self).text(),
            final(self).position() == whitespace_end(old(self).text(), old(self).position()),
            0 <= final(self).position() <= final(self).text().len(),
    {
        proof {
            use_type_invariant(&*self);
        }
        while !self.ended() && is_whitespace(self.current())
            invariant
                self.text() == old(self).text(),
                0 <= self.position() <= self.text().len(),
                whitespace_end(self.text(), self.position()) == whitespace_end(
                    old(self).text(),
                    old(self).position(),
                ),
            decreases self.text().len() - self.position(),
        {
            self.scan_char();
        }
    }

    /// Takes the character under the cursor, which is `c`, as a text of its
    /// own.
    fn take_one(&mut self, c: char) -> (text: String)
        requires
            old(self).position() < old(self).text().len(),
            c == old(self).text()[old(self).position()],
        ensures
            final(self).text() == old(self).text(),
            final(self).position() == old(self).position() + 1,
            text@ == old(self).text().subrange(old(self).position(), old(self).position() + 1),
    {
        let mut text = String::new();
        text.push(c);
        self.scan_char();
        text
    }

    /// Takes the character under the cursor and the one after it, which are
    /// `c` and `second`, as a text of its own.
    fn take_two(&mut self, c: char, second: char) -> (text: String)
        requires
            old(self).position() + 1 < old(self).text().len(),
            c == old(self).text()[old(self).position()],
            second == old(self).text()[old(self).position() + 1],
        ensures
            final(self).text() == old(self).text(),
            final(self).position() == old(self).position() + 2,
            text@ == old(self).text().subrange(old(self).position(), old(self).position() + 2),
    {
        let mut text = String::new();
        text.push(c);
        text.push(second);
        self.scan_char();
        self.scan_char();
        text
    }

    /// Takes the comment that the `#` under the cursor starts. The comment
    /// runs to the end of the line; the newline is left under the cursor.
    fn get_comment(&mut self) -> (token: Token)
        requires
            char_at(old(self).text(), old(self).position()) == '#',
        ensures
            final(self).text() == old(self).text(),
            final(self).position() == line_end(old(self).text(), old(self).position() + 1),
            token@ == (TokenView {
                token_type: TokenType::Comment,
                content: old(self).text().subrange(
                    old(self).position() + 1,
                    final(self).position(),
                ),
            }),
    {
        self.scan_char();
        let start = self.index;
        while !self.ended() && self.current() != '\n'
            invariant
                self.text() == old(self).text(),
                start == old(self).position() + 1,
                start <= self.position() <= self.text().len(),
                line_end(self.text(), self.position()) == line_end(self.text(), start as int),
            decreases self.text().len() - self.position(),
        {
            self.scan_char();
        }
        Token::new(TokenType::Comment, self.text_between(start, self.index))
    }

    /// Takes the identifier or keyword under the cursor: the identifier
    /// characters from the current one on.
    fn get_identifier_or_keyword(&mut self) -> (token: Token)
        ensures
            final(self).text() == old(self).text(),
            final(self).position() == identifier_end(old(self).text(), old(self).position()),
            token@.content == old(self).text().subrange(
                old(self).position(),
                final(self).position(),
            ),
            token@.token_type == if is_keyword(token@.content) {
                TokenType::Keyword
            } else {
                TokenType::Identifier
            },
    {
        proof {
            use_type_invariant(&*self);
        }
        let start = self.index;
        while !self.ended() && is_identifier_part(self.current())
            invariant
                self.text() == old(self).text(),
                start == old(self).position(),
                start <= self.position() <= self.text().len(),
                identifier_end(self.text(), start as int) == identifier_end(
                    self.text(),
                    self.position(),
                ),
            decreases self.text().len() - self.position(),
        {
            self.scan_char();
        }
        let token_type = if self.keyword_between(start, self.index) {
            TokenType::Keyword
        } else {
            TokenType::Identifier
        };
        Token::new(token_type, self.text_between(start, self.index))
    }

    /// Whether the text between two positions is a reserved word.
    fn keyword_between(&self, from: usize, to: usize) -> (reserved: bool)
        requires
            from <= to <= self.text().len(),
        ensures
            reserved == is_keyword(self.text().subrange(from as int, to as int)),
    {
        self.text_is(from, to, "proc") || self.text_is(from, to, "event") || self.text_is(
            from,
            to,
            "fn",
        ) || self.text_is(from, to, "if") || self.text_is(from, to, "elif") || self.text_is(
            from,
            to,
            "else",
        ) || self.text_is(from, to, "while") || self.text_is(from, to, "forever") || self.text_is(
            from,
            to,
            "for",
        ) || self.text_is(from, to, "in") || self.text_is(from, to, "break") || self.text_is(
            from,
            to,
            "private",
        )
    }

    /// Whether the text between two positions is `word`.
    fn text_is(&self, from: usize, to: usize, word: &str) -> (same: bool)
        requires
            from <= to <= self.text().len(),
        ensures
            same == (self.text().subrange(from as int, to as int) == word@),
    {
        let ghost text = self.text().subrange(from as int, to as int);
        let mut k = from;
        for c in it: word.chars()
            invariant
                it.seq() == word@,
                from <= k <= to <= self.text().len(),
                k - from == it.index(),
                text == self.text().subrange(from as int, to as int),
                text.take(it.index()) == word@.take(it.index()),
        {
            if k >= to || self.source[k] != c {
                return false;
            }
            k += 1;
        }
        assert(word@.take(word@.len() as int) == word@);
        assert(k == to ==> text.take(word@.len() as int) == text);
        k == to
    }

    /// Takes the number literal under the cursor: digits, and after them at
    /// most one decimal point with the digits that follow it.
    fn get_number_literal(&mut self) -> (token: Token)
        ensures
            final(self).text() == old(self).text(),
            final(self).position() == number_end(old(self).text(), old(self).position()),
            token@ == (TokenView {
                token_type: TokenType::Number,
                content: old(self).text().subrange(old(self).position(), final(self).position()),
            }),
    {
        proof {
            use_type_invariant(&*self);
        }
        let start = self.index;
        let mut is_float = false;
        while !self.ended() && (is_digit(self.current()) || (!is_float && self.current() == '.'))
            invariant
                self.text() == old(self).text(),
                start == old(self).position(),
                start <= self.position() <= self.text().len(),
                number_end(self.text(), start as int) == if is_float {
                    digits_end(self.text(), self.position())
                } else {
                    number_end(self.text(), self.position())
                },
            decreases self.text().len() - self.position(),
        {
            if self.current() == '.' {
                is_float = true;
            }
            self.scan_char();
        }
        Token::new(TokenType::Number, self.text_between(start, self.index))
    }

    /// Takes the string literal whose opening quote is under the cursor. In a
    /// raw literal a backslash is a character like any other; in a quoted one
    /// it starts an escape.
    fn get_string_literal(&mut self, raw: bool) -> (result: Result<Token, LexError>)
        requires
            is_quote(char_at(old(self).text(), old(self).position())),
        ensures
            final(self).text() == old(self).text(),
            string_literal(old(self).text(), old(self).position(), raw) == (Scan {
                result: result_view(result),
                end: final(self).position(),
            }),
    {
        let ghost s = self.text();
        let ghost open = self.position();
        let quote_type = self.current();
        let mut escaped = false;
        let mut string = String::new();
        proof {
            use_type_invariant(&*self);
        }
        loop
            invariant_except_break
                raw ==> !escaped,
                raw ==> raw_stop(s, quote_type, self.position() + 1) == raw_stop(
                    s,
                    quote_type,
                    open + 1,
                ),
                raw ==> string@ == s.subrange(open + 1, self.position() + 1),
                !raw && !escaped ==> {
                    let body = s.subrange(open + 1, self.position() + 1);
                    &&& quoted_stop(s, quote_type, self.position() + 1) == quoted_stop(
                        s,
                        quote_type,
                        open + 1,
                    )
                    &&& well_escaped(body)
                    &&& string@ == unescape(body)
                },
                escaped ==> {
                    let body = s.subrange(open + 1, self.position());
                    &&& open < self.position()
                    &&& s[self.position()] == '\\'
                    &&& quoted_stop(s, quote_type, self.position()) == quoted_stop(
                        s,
                        quote_type,
                        open + 1,
                    )
                    &&& well_escaped(body)
                    &&& string@ == unescape(body)
                },
            invariant
                self.text() == s,
                s == old(self).text(),
                open == old(self).position(),
                is_quote(quote_type),
                quote_type == s[open],
                0 <= open <= self.position() < s.len(),
            ensures
                string_literal(s, open, raw) == found(TokenType::Str, string@, self.position() + 1),
            decreases s.len() - self.position(),
        {
            self.scan_char();
            let c = self.current();
            if c == NUL {
                return Err(LexError::UnterminatedString(self.index));
            }
            let ghost at = self.position();
            if raw {
                if c == quote_type {
                    break ;
                }
                string.push(c);
            } else if escaped {
                match escape_value(c) {
                    Some(chr) => {
                        string.push(chr);
                    },
                    None => {
                        return Err(LexError::InvalidEscapeSequence(c, self.index));
                    },
                }
                escaped = false;
                proof {
                    let front = s.subrange(open + 1, at - 1);
                    let pair = seq!['\\', c];
                    assert(s.subrange(open + 1, at + 1) == front + pair);
                    assert(well_escaped(pair.skip(2)));
                    assert(unescape(pair.skip(2)) == Seq::<char>::empty());
                    lemma_unescape_concat(front, pair);
                }
            } else if c == '\\' {
                escaped = true;
            } else if c == quote_type {
                break ;
            } else {
                string.push(c);
                proof {
                    let front = s.subrange(open + 1, at);
                    let one = seq![c];
                    assert(s.subrange(open + 1, at + 1) == front + one);
                    assert(well_escaped(one.skip(1)));
                    assert(unescape(one.skip(1)) == Seq::<char>::empty());
                    lemma_unescape_concat(front, one);
                }
            }
        }
        self.scan_char();
        Ok(Token::new(TokenType::Str, string))
    }

    /// The text between two positions, as a string of its own.
    fn text_between(&self, from: usize, to: usize) -> (text: String)
        requires
            from <= to <= self.text().len(),
        ensures
            text@ == self.text().subrange(from as int, to as int),
    {
        let mut text = String::new();
        let mut k = from;
        while k < to
            invariant
                from <= k <= to <= self.text().len(),
                text@ == self.text().subrange(from as int, k as int),
            decreases to - k,
        {
            text.push(self.source[k]);
            k += 1;
        }
        text
    }

    /// The next element of the token sequence: the next token, unless it is
    /// the end-of-input token, with which the sequence is over.
    pub fn next(&mut self) -> (item: Option<Result<Token, LexError>>)
        ensures
            final(self).text() == old(self).text(),
            final(self).position() == scan_token(old(self).text(), old(self).position()).end,
            match item {
                Some(result) => {
                    &&& old(self).position() < old(self).text().len()
                    &&& result_view(result) == scan_token(
                        old(self).text(),
                        old(self).position(),
                    ).result
                },
                None => old(self).position() == old(self).text().len(),
            },
    {
        proof {
            use_type_invariant(&*self);
            lemma_scan_advances(self.text(), self.position());
        }
        match self.next_token() {
            Ok(token) => {
                if token.token_type == TokenType::EndOfFile {
                    None
                } else {
                    Some(Ok(token))
                }
            },
            Err(error) => Some(Err(error)),
        }
    }

    /// The rest of the token sequence: the tokens from the cursor to the end
    /// of the text, or the first failure. After a failure the cursor is at the
    /// position that it reports.
    pub fn tokens(&mut self) -> (result: Result<Vec<Token>, LexError>)
        ensures
            final(self).text() == old(self).text(),
            tokens_from(old(self).text(), old(self).position()) == sequence_view(result),
            final(self).position() == match result {
                Ok(_) => final(self).text().len() as int,
                Err(error) => error.position() as int,
            },
    {
        let mut tokens: Vec<Token> = Vec::new();
        proof {
            use_type_invariant(&*self);
        }
        loop
            invariant
                self.text() == old(self).text(),
                0 <= self.position() <= self.text().len() <= usize::MAX,
                tokens_from(old(self).text(), old(self).position()) == after(
                    token_views(tokens@),
                    tokens_from(self.text(), self.position()),
                ),
            decreases self.text().len() - self.position(),
        {
            let ghost before = token_views(tokens@);
            proof {
                lemma_scan_advances(self.text(), self.position());
                if scan_token(self.text(), self.position()).result is Err {
                    lemma_failure_position(self.text(), self.position());
                }
            }
            match self.next() {
                Some(Ok(token)) => {
                    tokens.push(token);
                    proof {
                        assert(token_views(tokens@) == before + seq![token@]);
                        if let Ok(more) = tokens_from(self.text(), self.position()) {
                            assert(before + (seq![token@] + more) == (before + seq![token@])
                                + more);
                        }
                    }
                },
                Some(Err(error)) => {
                    return Err(error);
                },
                None => {
                    return Ok(tokens);
                },
            }
        }
    }
}

} // verus!
