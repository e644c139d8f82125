//! The lexical grammar: what stands at a position of a text, stated over the
//! text as a sequence of characters.

use vstd::prelude::*;
use crate::chars::{
    dispatch, escape_value, is_digit, is_identifier_part, is_keyword, is_whitespace, Start, NUL,
};
use crate::error::LexError;
use crate::std_specs::unicode_alphabetic;
use crate::token::{TokenType, TokenView};

verus! {

/// What one request for a token comes to: the token or the failure, and the
/// position at which the cursor rests afterwards.
pub struct Scan {
    pub result: Result<TokenView, LexError>,
    pub end: int,
}

/// A token of the given kind and text, with the cursor left at `end`.
pub open spec fn found(token_type: TokenType, content: Seq<char>, end: int) -> Scan {
    Scan { result: Ok(TokenView { token_type, content }), end }
}

/// A failure, with the cursor left at the position that it reports.
pub open spec fn failed(error: LexError, at: int) -> Scan {
    Scan { result: Err(error), end: at }
}

/// The character under a cursor at `i`: the one that stands there, or [`NUL`]
/// once the cursor is off the text.
pub open spec fn char_at(s: Seq<char>, i: int) -> char {
    if 0 <= i < s.len() {
        s[i]
    } else {
        NUL
    }
}

/// The end of the longest run of characters with the property `p` that starts
/// at `i`: the first position from `i` on that is off the text or holds a
/// character without the property.
pub open spec fn run_end(s: Seq<char>, i: int, p: spec_fn(char) -> bool) -> int
    decreases s.len() - i,
{
    if 0 <= i < s.len() && p(s[i]) {
        run_end(s, i + 1, p)
    } else {
        i
    }
}

/// Where the whitespace that starts at `i` ends.
pub open spec fn whitespace_end(s: Seq<char>, i: int) -> int {
    run_end(s, i, |c: char| is_whitespace(c))
}

/// Where the line that `i` is on ends: the position of the next newline, or
/// the end of the text.
pub open spec fn line_end(s: Seq<char>, i: int) -> int {
    run_end(s, i, |c: char| c != '\n')
}

/// Where the digits that start at `i` end.
pub open spec fn digits_end(s: Seq<char>, i: int) -> int {
    run_end(s, i, |c: char| is_digit(c))
}

/// Where the identifier characters that start at `i` end.
pub open spec fn identifier_end(s: Seq<char>, i: int) -> int {
    run_end(s, i, |c: char| is_identifier_part(c))
}

/// Where the number literal that starts at `start` ends: digits, and after
/// them at most one decimal point with the digits that follow it.
pub open spec fn number_end(s: Seq<char>, start: int) -> int {
    let whole = digits_end(s, start);
    if whole < s.len() && s[whole] == '.' {
        digits_end(s, whole + 1)
    } else {
        whole
    }
}

/// Where the body of a raw string literal stops when it is read from `i` on:
/// at the first character that is the closing quote or [`NUL`], or at the end
/// of the text.
pub open spec fn raw_stop(s: Seq<char>, quote: char, i: int) -> int {
    run_end(s, i, |c: char| c != quote && c != NUL)
}

/// Where the body of a quoted string literal stops when it is read from `i`
/// on, `i` not being under a backslash: at the first quote or [`NUL`] that is
/// not escaped, at the character after a backslash that names no escape, or at
/// the end of the text.
pub open spec fn quoted_stop(s: Seq<char>, quote: char, i: int) -> int
    decreases s.len() - i,
{
    if i < 0 || i >= s.len() {
        i
    } else if s[i] == quote || s[i] == NUL {
        i
    } else if s[i] == '\\' {
        if i + 1 < s.len() && escape_value(s[i + 1]) is Some {
            quoted_stop(s, quote, i + 2)
        } else {
            i + 1
        }
    } else {
        quoted_stop(s, quote, i + 1)
    }
}

/// The content that the body of a quoted string literal stands for: each
/// backslash with a character behind it that it can escape gives, together
/// with that character, the one character that the pair denotes; every other
/// character gives itself.
pub open spec fn unescape(body: Seq<char>) -> Seq<char>
    decreases body.len(),
{
    if body.len() == 0 {
        Seq::empty()
    } else if body[0] == '\\' && body.len() >= 2 && escape_value(body[1]) is Some {
        seq![escape_value(body[1])->0] + unescape(body.skip(2))
    } else {
        seq![body[0]] + unescape(body.skip(1))
    }
}

/// Whether a body is made of escapes and plain characters alone: read from
/// the left, every backslash has a character behind it that it can escape.
pub open spec fn well_escaped(body: Seq<char>) -> bool
    decreases body.len(),
{
    if body.len() == 0 {
        true
    } else if body[0] == '\\' {
        body.len() >= 2 && escape_value(body[1]) is Some && well_escaped(body.skip(2))
    } else {
        well_escaped(body.skip(1))
    }
}

/// The string literal whose opening quote stands at `open`.
///
/// The literal runs to the next occurrence of that quote, which in a quoted
/// literal must not be escaped. The body between the two quotes is the content
/// of a raw literal as it stands, and of a quoted literal with its escapes
/// resolved. The scan fails where it meets the end of the text or [`NUL`]
/// before the closing quote, and in a quoted literal where a backslash is
/// followed by a character that names no escape.
pub open spec fn string_literal(s: Seq<char>, open: int, raw: bool) -> Scan {
    let quote = s[open];
    let stop = if raw {
        raw_stop(s, quote, open + 1)
    } else {
        quoted_stop(s, quote, open + 1)
    };
    if stop < s.len() && s[stop] == quote {
        let body = s.subrange(open + 1, stop);
        found(
            TokenType::Str,
            if raw {
                body
            } else {
                unescape(body)
            },
            stop + 1,
        )
    } else if stop >= s.len() || s[stop] == NUL {
        failed(LexError::UnterminatedString(stop as usize), stop)
    } else {
        failed(LexError::InvalidEscapeSequence(s[stop], stop as usize), stop)
    }
}

/// The character after the one at `i`, if the text has one there.
pub open spec fn next_at(s: Seq<char>, i: int) -> Option<char> {
    if 0 <= i + 1 < s.len() {
        Some(s[i + 1])
    } else {
        None
    }
}

/// The token that starts at `start`. What the character there starts is
/// decided by [`dispatch`]; the token then runs as far as its kind says.
/// Where the character starts nothing, and where `start` is off the text, no
/// token starts there.
pub open spec fn token_at(s: Seq<char>, start: int) -> Scan {
    if start < 0 || start >= s.len() {
        failed(LexError::UnknownCharacter(start as usize), start)
    } else {
        match dispatch(s[start], next_at(s, start), unicode_alphabetic(s[start])) {
            Start::PairOperator => found(
                TokenType::Operator,
                s.subrange(start, start + 2),
                start + 2,
            ),
            Start::PairSymbol => found(TokenType::Symbol, s.subrange(start, start + 2), start + 2),
            Start::Operator => found(
                TokenType::Operator,
                s.subrange(start, start + 1),
                start + 1,
            ),
            Start::Symbol => found(TokenType::Symbol, s.subrange(start, start + 1), start + 1),
            Start::Comment => {
                let end = line_end(s, start + 1);
                found(TokenType::Comment, s.subrange(start + 1, end), end)
            },
            Start::RawString => string_literal(s, start + 1, true),
            Start::QuotedString => string_literal(s, start, false),
            Start::Identifier => {
                let end = identifier_end(s, start);
                let text = s.subrange(start, end);
                found(
                    if is_keyword(text) {
                        TokenType::Keyword
                    } else {
                        TokenType::Identifier
                    },
                    text,
                    end,
                )
            },
            Start::Number => {
                let end = number_end(s, start);
                found(TokenType::Number, s.subrange(start, end), end)
            },
            Start::Unknown => failed(LexError::UnknownCharacter(start as usize), start),
        }
    }
}

/// What a request for the next token comes to when the cursor is at `i`.
///
/// At the end of the text it is the end-of-input token, and the cursor stays.
/// Anywhere else the whitespace at `i` is passed over and the token that
/// starts behind it is taken; whitespace that runs to the end of the text has
/// no token behind it, and the request fails there.
pub open spec fn scan_token(s: Seq<char>, i: int) -> Scan {
    if i >= s.len() {
        found(TokenType::EndOfFile, Seq::empty(), i)
    } else {
        token_at(s, whitespace_end(s, i))
    }
}

/// The outcome `rest` of scanning on, behind tokens already found.
pub open spec fn after(front: Seq<TokenView>, rest: Result<Seq<TokenView>, LexError>) -> Result<
    Seq<TokenView>,
    LexError,
> {
    match rest {
        Ok(tokens) => Ok(front + tokens),
        Err(error) => Err(error),
    }
}

/// A run starts at `i` or later, ends on the text, holds only characters with
/// the property, and is not followed by one.
pub proof fn lemma_run_end(s: Seq<char>, i: int, p: spec_fn(char) -> bool)
    requires
        0 <= i <= s.len(),
    ensures
        i <= run_end(s, i, p) <= s.len(),
        forall|k: int| i <= k < run_end(s, i, p) ==> p(#[trigger] s[k]),
        run_end(s, i, p) < s.len() ==> !p(s[run_end(s, i, p)]),
    decreases s.len() - i,
{
    if i < s.len() && p(s[i]) {
        lemma_run_end(s, i + 1, p);
    }
}

/// Behind a body that is made of escapes and plain characters alone, what
/// follows is resolved on its own.
pub proof fn lemma_unescape_concat(front: Seq<char>, back: Seq<char>)
    requires
        well_escaped(front),
    ensures
        unescape(front + back) == unescape(front) + unescape(back),
        well_escaped(front + back) == well_escaped(back),
    decreases front.len(),
{
    let whole = front + back;
    if front.len() == 0 {
    } else if front[0] == '\\' {
        assert(whole.skip(2) == front.skip(2) + back);
        lemma_unescape_concat(front.skip(2), back);
    } else {
        assert(whole.skip(1) == front.skip(1) + back);
        lemma_unescape_concat(front.skip(1), back);
    }
}

/// The scan of a quoted body stops at `i` or later, and on the text.
pub proof fn lemma_quoted_stop(s: Seq<char>, quote: char, i: int)
    requires
        0 <= i <= s.len(),
    ensures
        i <= quoted_stop(s, quote, i) <= s.len(),
    decreases s.len() - i,
{
    if i < s.len() && s[i] != quote && s[i] != NUL {
        if s[i] == '\\' {
            if i + 1 < s.len() && escape_value(s[i + 1]) is Some {
                lemma_quoted_stop(s, quote, i + 2);
            }
        } else {
            lemma_quoted_stop(s, quote, i + 1);
        }
    }
}

/// A request leaves the cursor on the text and never moves it back. Where it
/// yields a token before the end of the text, it moves the cursor forward:
/// every token but the end-of-input token takes at least one character.
pub proof fn lemma_scan_advances(s: Seq<char>, i: int)
    requires
        0 <= i <= s.len(),
    ensures
        i <= whitespace_end(s, i) <= scan_token(s, i).end <= s.len(),
        scan_token(s, i).result matches Ok(token) ==> {
            &&& i < s.len() ==> whitespace_end(s, i) < scan_token(s, i).end
            &&& token.token_type is EndOfFile <==> i == s.len()
            &&& token.token_type !is Error
        },
{
    lemma_run_end(s, i, |c: char| is_whitespace(c));
    let start = whitespace_end(s, i);
    if i < s.len() && start < s.len() {
        lemma_run_end(s, start + 1, |c: char| c != '\n');
        lemma_run_end(s, start, |c: char| is_identifier_part(c));
        lemma_run_end(s, start + 1, |c: char| is_digit(c));
        let whole = digits_end(s, start);
        if is_digit(s[start]) && whole < s.len() {
            lemma_run_end(s, whole + 1, |c: char| is_digit(c));
        }
        lemma_quoted_stop(s, s[start], start + 1);
        if start + 1 < s.len() {
            lemma_run_end(s, start + 2, |c: char| c != s[start + 1] && c != NUL);
        }
    }
}

/// A failure reports the position at which it leaves the cursor.
pub proof fn lemma_failure_position(s: Seq<char>, i: int)
    requires
        0 <= i <= s.len() <= usize::MAX,
        scan_token(s, i).result is Err,
    ensures
        scan_token(s, i).result->Err_0.position() == scan_token(s, i).end,
{
    lemma_scan_advances(s, i);
}

/// The tokens from position `i` to the end of the text, in the order in which
/// repeated requests yield them, without the end-of-input token; or the first
/// failure that those requests run into.
pub open spec fn tokens_from(s: Seq<char>, i: int) -> Result<Seq<TokenView>, LexError>
    decreases s.len() - i,
{
    if 0 <= i < s.len() {
        match scan_token(s, i).result {
            Ok(token) => {
                proof {
                    lemma_scan_advances(s, i);
                }
                after(seq![token], tokens_from(s, scan_token(s, i).end))
            },
            Err(error) => Err(error),
        }
    } else {
        Ok(Seq::empty())
    }
}

/// The tokens of a text.
pub open spec fn tokens(s: Seq<char>) -> Result<Seq<TokenView>, LexError> {
    tokens_from(s, 0)
}

/// The positions at which the cursor rests while the tokens from `i` on are
/// requested: `i` itself, and then the position behind each token.
pub open spec fn stops_from(s: Seq<char>, i: int) -> Seq<int>
    decreases s.len() - i,
{
    if 0 <= i < s.len() && scan_token(s, i).result is Ok {
        proof {
            lemma_scan_advances(s, i);
        }
        seq![i] + stops_from(s, scan_token(s, i).end)
    } else {
        seq![i]
    }
}

} // verus!
