use script_lexer::{LexError, Lexer, Token, TokenType};

fn token(token_type: TokenType, content: &str) -> Token {
    Token::new(token_type, content.to_string())
}

fn lex(source: &str) -> Vec<Token> {
    Lexer::new(source).tokens().expect("the text has no lexing failure")
}

#[test]
fn empty_text_has_no_tokens() {
    assert_eq!(Lexer::new("").tokens(), Ok(Vec::new()));
    assert!(Lexer::new("").next().is_none());
}

#[test]
fn end_of_input_token_is_empty_and_repeats() {
    let mut lexer = Lexer::new("");
    assert_eq!(lexer.next_token(), Ok(token(TokenType::EndOfFile, "")));
    assert_eq!(lexer.next_token(), Ok(token(TokenType::EndOfFile, "")));

    let mut lexer = Lexer::new("x");
    assert_eq!(lexer.next_token(), Ok(token(TokenType::Identifier, "x")));
    assert_eq!(lexer.next_token(), Ok(token(TokenType::EndOfFile, "")));
    assert_eq!(lexer.next_token(), Ok(token(TokenType::EndOfFile, "")));
}

#[test]
fn sequence_ends_in_front_of_end_of_input() {
    let mut lexer = Lexer::new("a b");
    assert_eq!(lexer.next(), Some(Ok(token(TokenType::Identifier, "a"))));
    assert_eq!(lexer.next(), Some(Ok(token(TokenType::Identifier, "b"))));
    assert_eq!(lexer.next(), None);
    assert_eq!(lexer.next(), None);
}

#[test]
fn whitespace_between_tokens_is_passed_over() {
    assert_eq!(
        lex(" \t\r\n a \n\n\t+\r\nb"),
        vec![
            token(TokenType::Identifier, "a"),
            token(TokenType::Operator, "+"),
            token(TokenType::Identifier, "b"),
        ]
    );
}

#[test]
fn tokens_without_whitespace_between_them() {
    assert_eq!(
        lex("f(x)[1]{y;}:z,w"),
        vec![
            token(TokenType::Identifier, "f"),
            token(TokenType::Symbol, "("),
            token(TokenType::Identifier, "x"),
            token(TokenType::Symbol, ")"),
            token(TokenType::Symbol, "["),
            token(TokenType::Number, "1"),
            token(TokenType::Symbol, "]"),
            token(TokenType::Symbol, "{"),
            token(TokenType::Identifier, "y"),
            token(TokenType::Symbol, ";"),
            token(TokenType::Symbol, "}"),
            token(TokenType::Symbol, ":"),
            token(TokenType::Identifier, "z"),
            token(TokenType::Symbol, ","),
            token(TokenType::Identifier, "w"),
        ]
    );
}

#[test]
fn every_character_is_consumed_once() {
    let source = "while x <= 10 { x += 1 } # done";
    let tokens = lex(source);
    let mut rebuilt = String::new();
    for t in &tokens {
        if t.token_type == TokenType::Comment {
            rebuilt.push('#');
        }
        rebuilt.push_str(&t.content);
    }
    let without_spaces: String = source.chars().filter(|c| *c != ' ').collect();
    let rebuilt_without_spaces: String = rebuilt.chars().filter(|c| *c != ' ').collect();
    assert_eq!(rebuilt_without_spaces, without_spaces);
}

#[test]
fn tokens_from_the_middle_of_a_text() {
    let mut lexer = Lexer::new("a b c");
    assert_eq!(lexer.next_token(), Ok(token(TokenType::Identifier, "a")));
    assert_eq!(
        lexer.tokens(),
        Ok(vec![token(TokenType::Identifier, "b"), token(TokenType::Identifier, "c")])
    );
    assert_eq!(lexer.tokens(), Ok(Vec::new()));
}

#[test]
fn operators_of_two_characters() {
    let all = [
        "==", "!=", "<=", ">=", "||", "&&", "++", "--", "<<", ">>", "//", "**", "+=", "-=", "/=",
        "*=",
    ];
    for op in all {
        assert_eq!(lex(op), vec![token(TokenType::Operator, op)]);
    }
}

#[test]
fn symbols_of_two_characters() {
    assert_eq!(lex("@{"), vec![token(TokenType::Symbol, "@{")]);
    assert_eq!(lex("${"), vec![token(TokenType::Symbol, "${")]);
    assert_eq!(
        lex("${x}"),
        vec![
            token(TokenType::Symbol, "${"),
            token(TokenType::Identifier, "x"),
            token(TokenType::Symbol, "}"),
        ]
    );
}

#[test]
fn operators_of_one_character() {
    for op in ["+", "-", "/", "*", "%", "<", ">", "^", "!", "~"] {
        assert_eq!(lex(op), vec![token(TokenType::Operator, op)]);
    }
}

#[test]
fn symbols_of_one_character() {
    for symbol in [";", ":", "{", "}", "(", ")", "[", "]", ".", ",", "="] {
        assert_eq!(lex(symbol), vec![token(TokenType::Symbol, symbol)]);
    }
}

#[test]
fn two_characters_win_over_one() {
    assert_eq!(lex("=="), vec![token(TokenType::Operator, "==")]);
    assert_eq!(
        lex("==="),
        vec![token(TokenType::Operator, "=="), token(TokenType::Symbol, "=")]
    );
    assert_eq!(
        lex("= ="),
        vec![token(TokenType::Symbol, "="), token(TokenType::Symbol, "=")]
    );
    assert_eq!(
        lex("a<<=b"),
        vec![
            token(TokenType::Identifier, "a"),
            token(TokenType::Operator, "<<"),
            token(TokenType::Symbol, "="),
            token(TokenType::Identifier, "b"),
        ]
    );
    assert_eq!(
        lex("+++"),
        vec![token(TokenType::Operator, "++"), token(TokenType::Operator, "+")]
    );
    assert_eq!(
        lex("=!"),
        vec![token(TokenType::Symbol, "="), token(TokenType::Operator, "!")]
    );
}

#[test]
fn double_slash_is_an_operator_not_a_comment() {
    assert_eq!(
        lex("a // b"),
        vec![
            token(TokenType::Identifier, "a"),
            token(TokenType::Operator, "//"),
            token(TokenType::Identifier, "b"),
        ]
    );
}

#[test]
fn comment_runs_to_the_end_of_the_line() {
    assert_eq!(
        lex("x # one # two\ny"),
        vec![
            token(TokenType::Identifier, "x"),
            token(TokenType::Comment, " one # two"),
            token(TokenType::Identifier, "y"),
        ]
    );
}

#[test]
fn comment_may_end_with_the_text() {
    assert_eq!(lex("# last"), vec![token(TokenType::Comment, " last")]);
    assert_eq!(lex("#"), vec![token(TokenType::Comment, "")]);
}

#[test]
fn comment_leaves_the_newline() {
    let mut lexer = Lexer::new("#a\n#b");
    assert_eq!(lexer.next_token(), Ok(token(TokenType::Comment, "a")));
    assert_eq!(lexer.next_token(), Ok(token(TokenType::Comment, "b")));
    assert_eq!(lexer.next_token(), Ok(token(TokenType::EndOfFile, "")));

    let mut lexer = Lexer::new("#a\n");
    assert_eq!(lexer.next_token(), Ok(token(TokenType::Comment, "a")));
    assert_eq!(lexer.next_token(), Err(LexError::UnknownCharacter(3)));
}

#[test]
fn keywords() {
    let all = [
        "proc", "event", "fn", "if", "elif", "else", "while", "forever", "for", "in", "break",
        "private",
    ];
    for word in all {
        assert_eq!(lex(word), vec![token(TokenType::Keyword, word)]);
    }
}

#[test]
fn words_that_are_no_keywords() {
    for word in ["procs", "If", "fo", "forever_", "i", "n", "breaks", "elsee", "_if", "$for"] {
        assert_eq!(lex(word), vec![token(TokenType::Identifier, word)]);
    }
}

#[test]
fn identifiers() {
    for word in ["x", "_", "$", "_x1", "$tmp", "a$b_c9", "camelCase", "r", "rx", "r2"] {
        assert_eq!(lex(word), vec![token(TokenType::Identifier, word)]);
    }
}

#[test]
fn identifiers_in_other_alphabets() {
    assert_eq!(lex("été"), vec![token(TokenType::Identifier, "été")]);
    assert_eq!(
        lex("变量 = 京"),
        vec![
            token(TokenType::Identifier, "变量"),
            token(TokenType::Symbol, "="),
            token(TokenType::Identifier, "京"),
        ]
    );
    assert_eq!(lex("x²"), vec![token(TokenType::Identifier, "x²")]);
    assert_eq!(lex("a٣"), vec![token(TokenType::Identifier, "a٣")]);
}

#[test]
fn identifier_ends_at_the_first_other_character() {
    assert_eq!(
        lex("ab-cd"),
        vec![
            token(TokenType::Identifier, "ab"),
            token(TokenType::Operator, "-"),
            token(TokenType::Identifier, "cd"),
        ]
    );
    assert_eq!(
        lex("if(x)"),
        vec![
            token(TokenType::Keyword, "if"),
            token(TokenType::Symbol, "("),
            token(TokenType::Identifier, "x"),
            token(TokenType::Symbol, ")"),
        ]
    );
}

#[test]
fn numbers() {
    for number in ["0", "7", "42", "007", "3.14", "10.", "1234567890.0987654321"] {
        assert_eq!(lex(number), vec![token(TokenType::Number, number)]);
    }
}

#[test]
fn number_takes_one_decimal_point_only() {
    assert_eq!(
        lex("1..2"),
        vec![
            token(TokenType::Number, "1."),
            token(TokenType::Symbol, "."),
            token(TokenType::Number, "2"),
        ]
    );
    assert_eq!(
        lex("1.2.3.4"),
        vec![
            token(TokenType::Number, "1.2"),
            token(TokenType::Symbol, "."),
            token(TokenType::Number, "3.4"),
        ]
    );
    assert_eq!(
        lex(".5"),
        vec![token(TokenType::Symbol, "."), token(TokenType::Number, "5")]
    );
}

#[test]
fn number_then_identifier() {
    assert_eq!(
        lex("12ab"),
        vec![token(TokenType::Number, "12"), token(TokenType::Identifier, "ab")]
    );
    assert_eq!(
        lex("1.x"),
        vec![token(TokenType::Number, "1."), token(TokenType::Identifier, "x")]
    );
}

#[test]
fn token_equality_is_by_kind_and_text() {
    assert_eq!(token(TokenType::Number, "1"), token(TokenType::Number, "1"));
    assert_ne!(token(TokenType::Number, "1"), token(TokenType::Number, "2"));
    assert_ne!(token(TokenType::Number, "1"), token(TokenType::Str, "1"));
    let first = token(TokenType::Keyword, "if");
    assert_eq!(first.clone(), first);
}

#[test]
fn token_new_keeps_kind_and_text() {
    let made = Token::new(TokenType::Comment, " note".to_string());
    assert_eq!(made.token_type, TokenType::Comment);
    assert_eq!(made.content, " note");
}
