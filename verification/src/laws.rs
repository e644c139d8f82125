//! What holds of every text: the laws of the scanner, each proved from the
//! grammar.

use vstd::prelude::*;
use crate::chars::{is_digit, is_pair_operator, is_pair_symbol, is_quote, is_whitespace, NUL};
use crate::error::LexError;
use crate::grammar::{
    digits_end, found, lemma_quoted_stop, lemma_run_end, lemma_scan_advances, number_end,
    quoted_stop, scan_token, stops_from, string_literal, tokens, tokens_from, unescape,
    well_escaped, whitespace_end,
};
use crate::token::{TokenType, TokenView};

verus! {

/// A text is consumed once and in order, and whole unless a request fails.
///
/// The requests for its tokens start at `i`, and each starts where the one
/// before it ended. What a request consumes is the whitespace in front of its
/// token, and then the token, which takes at least one character. The last
/// stop is the end of the text where the text has no lexing failure; the
/// tokens are then what the requests yielded, in their order. Otherwise the
/// last stop lies in front of the end, and the request made there is the
/// failure.
pub proof fn lemma_requests_tile_text(s: Seq<char>, i: int)
    requires
        0 <= i <= s.len(),
    ensures
        stops_from(s, i).len() >= 1,
        stops_from(s, i).first() == i,
        i <= stops_from(s, i).last() <= s.len(),
        forall|k: int|
            #![trigger stops_from(s, i)[k]]
            0 <= k < stops_from(s, i).len() - 1 ==> {
                let from = stops_from(s, i)[k];
                let to = stops_from(s, i)[k + 1];
                &&& 0 <= from <= whitespace_end(s, from) < to <= s.len()
                &&& forall|j: int| from <= j < whitespace_end(s, from) ==> is_whitespace(s[j])
                &&& scan_token(s, from).result is Ok
                &&& scan_token(s, from).end == to
            },
        match tokens_from(s, i) {
            Ok(tokens) => {
                &&& stops_from(s, i).last() == s.len()
                &&& tokens.len() == stops_from(s, i).len() - 1
                &&& forall|k: int|
                    #![trigger tokens[k]]
                    0 <= k < tokens.len() ==> scan_token(s, stops_from(s, i)[k]).result == Ok::<
                        TokenView,
                        LexError,
                    >(tokens[k])
            },
            Err(error) => {
                &&& stops_from(s, i).last() < s.len()
                &&& scan_token(s, stops_from(s, i).last()).result == Err::<TokenView, LexError>(
                    error,
                )
            },
        },
    decreases s.len() - i,
{
    if i < s.len() && scan_token(s, i).result is Ok {
        lemma_scan_advances(s, i);
        lemma_run_end(s, i, |c: char| is_whitespace(c));
        lemma_requests_tile_text(s, scan_token(s, i).end);
    }
}

/// A text without characters has no tokens: the first request yields the
/// end-of-input token, and the token sequence is empty.
pub proof fn lemma_empty_text_has_no_tokens(s: Seq<char>)
    requires
        s.len() == 0,
    ensures
        scan_token(s, 0) == found(TokenType::EndOfFile, Seq::empty(), 0),
        tokens(s) == Ok::<Seq<TokenView>, LexError>(Seq::empty()),
{
}

/// An operator of two characters is taken as one token, and never as the
/// token of its first character alone.
pub proof fn lemma_pair_operator_is_one_token(s: Seq<char>, i: int)
    requires
        0 <= i,
        i + 1 < s.len(),
        is_pair_operator(s[i], s[i + 1]),
    ensures
        scan_token(s, i) == found(TokenType::Operator, s.subrange(i, i + 2), i + 2),
{
}

/// A symbol of two characters is taken as one token, and never as the token
/// of its first character alone.
pub proof fn lemma_pair_symbol_is_one_token(s: Seq<char>, i: int)
    requires
        0 <= i,
        i + 1 < s.len(),
        is_pair_symbol(s[i], s[i + 1]),
    ensures
        scan_token(s, i) == found(TokenType::Symbol, s.subrange(i, i + 2), i + 2),
{
}

/// The content of a raw string literal is its body as it stands.
///
/// The literal that `r` and a quote open at `i` is closed by the first
/// occurrence of that quote, whatever stands in front of it. Where it is
/// closed, the token's text is what stands between the quotes, character for
/// character, backslashes included. Where it is not, the failure is an
/// unterminated string: a raw literal has no invalid escape.
pub proof fn lemma_raw_string_is_verbatim(s: Seq<char>, i: int)
    requires
        0 <= i,
        i + 1 < s.len(),
        s[i] == 'r',
        is_quote(s[i + 1]),
    ensures
        scan_token(s, i) == string_literal(s, i + 1, true),
        i + 2 <= scan_token(s, i).end <= s.len(),
        match scan_token(s, i).result {
            Ok(token) => {
                let close = scan_token(s, i).end - 1;
                &&& i + 2 <= close
                &&& s[close] == s[i + 1]
                &&& forall|k: int| i + 2 <= k < close ==> #[trigger] s[k] != s[i + 1]
                &&& token.token_type is Str
                &&& token.content == s.subrange(i + 2, close)
            },
            Err(error) => error is UnterminatedString,
        },
{
    lemma_run_end(s, i + 2, |c: char| c != s[i + 1] && c != NUL);
}

/// The body of a quoted string literal, up to the first quote that no
/// backslash escapes, is made of escapes and plain characters alone.
proof fn lemma_quoted_body(s: Seq<char>, quote: char, i: int)
    requires
        0 <= i <= s.len(),
        is_quote(quote),
        quoted_stop(s, quote, i) < s.len(),
        s[quoted_stop(s, quote, i)] == quote,
    ensures
        well_escaped(s.subrange(i, quoted_stop(s, quote, i))),
    decreases s.len() - i,
{
    let stop = quoted_stop(s, quote, i);
    let body = s.subrange(i, stop);
    lemma_quoted_stop(s, quote, i);
    if s[i] == quote || s[i] == NUL {
    } else if s[i] == '\\' {
        lemma_quoted_stop(s, quote, i + 2);
        lemma_quoted_body(s, quote, i + 2);
        assert(body.skip(2) == s.subrange(i + 2, stop));
    } else {
        lemma_quoted_stop(s, quote, i + 1);
        lemma_quoted_body(s, quote, i + 1);
        assert(body.skip(1) == s.subrange(i + 1, stop));
    }
}

/// The content of a quoted string literal is its body with every escape
/// resolved.
///
/// The literal that a quote opens at `i` is closed by the next occurrence of
/// that quote that no backslash escapes. Where it is closed, the body between
/// the quotes is made of escapes and plain characters alone, and the token's
/// text is the body with each escape replaced by the character that it
/// denotes.
pub proof fn lemma_quoted_string_is_unescaped(s: Seq<char>, i: int)
    requires
        0 <= i < s.len(),
        is_quote(s[i]),
    ensures
        scan_token(s, i) == string_literal(s, i, false),
        i + 1 <= scan_token(s, i).end <= s.len(),
        scan_token(s, i).result matches Ok(token) ==> {
            let close = scan_token(s, i).end - 1;
            let body = s.subrange(i + 1, close);
            &&& i + 1 <= close
            &&& s[close] == s[i]
            &&& well_escaped(body)
            &&& token.token_type is Str
            &&& token.content == unescape(body)
        },
{
    lemma_quoted_stop(s, s[i], i + 1);
    if scan_token(s, i).result is Ok {
        lemma_quoted_body(s, s[i], i + 1);
    }
}

/// A number literal holds at most one decimal point, and a decimal point
/// behind a literal that has one is not part of it.
///
/// Where a request yields a number literal that ends in front of a `.`, the
/// literal holds a decimal point already, and the next request yields that `.`
/// as a symbol of its own.
pub proof fn lemma_second_point_ends_number(s: Seq<char>, i: int)
    requires
        0 <= i < s.len(),
        scan_token(s, i).result matches Ok(token) && token.token_type is Number,
    ensures
        ({
            let start = whitespace_end(s, i);
            let whole = digits_end(s, start);
            let end = scan_token(s, i).end;
            &&& start < whole <= end <= s.len()
            &&& end == number_end(s, start)
            &&& forall|k: int| start <= k < whole ==> is_digit(s[k])
            &&& whole < end ==> s[whole] == '.'
            &&& forall|k: int| whole < k < end ==> is_digit(s[k])
            &&& end < s.len() && s[end] == '.' ==> {
                &&& whole < end
                &&& scan_token(s, end) == found(TokenType::Symbol, s.subrange(end, end + 1), end + 1)
            }
        }),
{
    let start = whitespace_end(s, i);
    lemma_scan_advances(s, i);
    lemma_run_end(s, start, |c: char| is_digit(c));
    let whole = digits_end(s, start);
    if whole < s.len() && s[whole] == '.' {
        lemma_run_end(s, whole + 1, |c: char| is_digit(c));
    }
}

} // verus!
