use config_parser::error::{Error, ErrorType};
use config_parser::lexer::{
    preproc_step, run, track, PreProcState, PreProcStep, Token, TokenType,
};
use config_parser::source::OwningChars;

fn lex(text: &str) -> Result<Vec<Token>, Error> {
    run(OwningChars::new(String::from(text)))
}

fn unwrap_tokens(tokens: Result<Vec<Token>, Error>) -> Result<Vec<TokenType>, Error> {
    tokens.map(|toks| toks.iter().map(|t| t.token_type.clone()).collect())
}

fn raw(text: &str) -> TokenType {
    TokenType::RawLiteral(String::from(text))
}

fn string(text: &str) -> TokenType {
    TokenType::StringLiteral(String::from(text))
}

#[test]
fn successfully_parses_empty_string() {
    assert_eq!(lex(""), Ok(vec![]));
}

#[test]
fn successfully_parses_raw_token() {
    assert_eq!(
        unwrap_tokens(lex("test")),
        Ok(vec![TokenType::RawLiteral(String::from("test"))])
    );
}

#[test]
fn successfully_parses_string_token() {
    assert_eq!(
        unwrap_tokens(lex("\"test\"")),
        Ok(vec![TokenType::StringLiteral(String::from("test"))])
    );
}

#[test]
fn successfully_parse_basic_tokens() {
    assert_eq!(
        unwrap_tokens(lex("(){};")),
        Ok(vec![
            TokenType::OpenParen,
            TokenType::CloseParen,
            TokenType::OpenBrace,
            TokenType::CloseBrace,
            TokenType::Semicolon,
        ])
    );
}

#[test]
fn successfully_parse_a_typical_example() {
    assert_eq!(
        unwrap_tokens(lex("option param { inner_option \"value\"; };")),
        Ok(vec![
            TokenType::RawLiteral(String::from("option")),
            TokenType::RawLiteral(String::from("param")),
            TokenType::OpenBrace,
            TokenType::RawLiteral(String::from("inner_option")),
            TokenType::StringLiteral(String::from("value")),
            TokenType::Semicolon,
            TokenType::CloseBrace,
            TokenType::Semicolon
        ])
    );
}

#[test]
fn ignores_comments() {
    assert_eq!(
        unwrap_tokens(lex("/* shit */
                                       // crap
                                       # shit")),
        Ok(vec![])
    );
}

#[test]
fn fails_on_unterminated_string() {
    assert_eq!(
        lex("\"yo dawg"),
        Err(Error::new(1, 8, ErrorType::UnexpectedEOF, None))
    );
}

#[test]
fn comments_of_every_kind_leave_no_token() {
    assert_eq!(unwrap_tokens(lex("/* a */ // b\n # c")), Ok(vec![]));
}

#[test]
fn lexing_succeeds_when_every_quote_is_closed() {
    let inputs = [
        "",
        "a",
        "a b c",
        "{}{}{}",
        "\"\"",
        "\"a\" \"b\"",
        "a \"b c\" d;",
        "/* never closed",
        "// no newline",
        "x /* \" */ y",
        "# \"",
        "a\\b",
        "\"\\\"\"",
        "}}}}((((",
        "/",
        "/**//",
        "/* a *//* b */x y",
    ];
    for text in inputs.iter() {
        assert!(lex(text).is_ok(), "failed on {:?}", text);
    }
}

#[test]
fn lexing_fails_only_at_the_end_of_an_open_quote() {
    assert_eq!(lex("\""), Err(Error::new(1, 1, ErrorType::UnexpectedEOF, None)));
    assert_eq!(lex("a \"b"), Err(Error::new(1, 4, ErrorType::UnexpectedEOF, None)));
    assert_eq!(lex("\"a\\"), Err(Error::new(1, 3, ErrorType::UnexpectedEOF, None)));
    assert_eq!(lex("\"a\\\""), Err(Error::new(1, 4, ErrorType::UnexpectedEOF, None)));
    assert_eq!(lex("\"a\nb"), Err(Error::new(2, 1, ErrorType::UnexpectedEOF, None)));
}

#[test]
fn a_comment_inside_a_quote_is_still_a_comment() {
    assert_eq!(lex("\"a # b\""), Err(Error::new(1, 7, ErrorType::UnexpectedEOF, None)));
    assert_eq!(unwrap_tokens(lex("\"a /* b */c\"")), Ok(vec![string("a c")]));
    assert_eq!(unwrap_tokens(lex("\"a#b\nc\"")), Ok(vec![string("a c")]));
}

#[test]
fn escapes_in_quoted_literals() {
    assert_eq!(unwrap_tokens(lex("\"a\\\\b\"")), Ok(vec![string("a\\b")]));
    assert_eq!(unwrap_tokens(lex("\"a\\nb\"")), Ok(vec![string("a\nb")]));
    assert_eq!(unwrap_tokens(lex("\"a\\\"b\"")), Ok(vec![string("a\"b")]));
    assert_eq!(unwrap_tokens(lex("\"a\\tb\"")), Ok(vec![string("atb")]));
    assert_eq!(unwrap_tokens(lex("\"\\ \"")), Ok(vec![string(" ")]));
}

#[test]
fn quoted_literals_keep_structure_and_blanks() {
    assert_eq!(unwrap_tokens(lex("\"a b;{}()\"")), Ok(vec![string("a b;{}()")]));
    assert_eq!(unwrap_tokens(lex("\"a\tb\"")), Ok(vec![string("a b")]));
    assert_eq!(unwrap_tokens(lex("\"a\nb\"")), Ok(vec![string("a b")]));
    assert_eq!(unwrap_tokens(lex("\"a\r\nb\"")), Ok(vec![string("a b")]));
    assert_eq!(unwrap_tokens(lex("\"\"")), Ok(vec![string("")]));
}

#[test]
fn a_quote_inside_a_bare_word_belongs_to_it() {
    assert_eq!(unwrap_tokens(lex("ab\"cd")), Ok(vec![raw("ab\"cd")]));
    assert_eq!(unwrap_tokens(lex("a\\b")), Ok(vec![raw("a\\b")]));
}

#[test]
fn a_quoted_literal_ends_at_its_quote() {
    assert_eq!(unwrap_tokens(lex("\"a\"b")), Ok(vec![string("a"), raw("b")]));
    assert_eq!(unwrap_tokens(lex("\"a\"\"b\"")), Ok(vec![string("a"), string("b")]));
}

#[test]
fn structure_ends_a_bare_word() {
    assert_eq!(
        unwrap_tokens(lex("a{b}c;d(e)f")),
        Ok(vec![
            raw("a"),
            TokenType::OpenBrace,
            raw("b"),
            TokenType::CloseBrace,
            raw("c"),
            TokenType::Semicolon,
            raw("d"),
            TokenType::OpenParen,
            raw("e"),
            TokenType::CloseParen,
            raw("f"),
        ])
    );
}

#[test]
fn every_whitespace_character_separates() {
    assert_eq!(unwrap_tokens(lex("a\tb")), Ok(vec![raw("a"), raw("b")]));
    assert_eq!(unwrap_tokens(lex("a\nb")), Ok(vec![raw("a"), raw("b")]));
    assert_eq!(unwrap_tokens(lex("a\u{a0}b")), Ok(vec![raw("a"), raw("b")]));
    assert_eq!(unwrap_tokens(lex("a\u{3000}b")), Ok(vec![raw("a"), raw("b")]));
    assert_eq!(unwrap_tokens(lex(" \t\n a \n")), Ok(vec![raw("a")]));
}

#[test]
fn a_carriage_return_is_dropped() {
    assert_eq!(unwrap_tokens(lex("a\rb")), Ok(vec![raw("ab")]));
    assert_eq!(unwrap_tokens(lex("a\r\nb")), Ok(vec![raw("a"), raw("b")]));
}

#[test]
fn line_comments_run_to_the_end_of_the_line() {
    assert_eq!(unwrap_tokens(lex("a # b c\nd")), Ok(vec![raw("a"), raw("d")]));
    assert_eq!(unwrap_tokens(lex("a // b c\nd")), Ok(vec![raw("a"), raw("d")]));
    assert_eq!(unwrap_tokens(lex("a#b\nc")), Ok(vec![raw("a"), raw("c")]));
    assert_eq!(unwrap_tokens(lex("a//b\nc")), Ok(vec![raw("a"), raw("c")]));
    assert_eq!(unwrap_tokens(lex("a # b")), Ok(vec![raw("a")]));
}

#[test]
fn a_single_slash_is_an_ordinary_character() {
    assert_eq!(unwrap_tokens(lex("/")), Ok(vec![raw("/")]));
    assert_eq!(unwrap_tokens(lex("a/b")), Ok(vec![raw("a/b")]));
    assert_eq!(unwrap_tokens(lex("/etc/nginx")), Ok(vec![raw("/etc/nginx")]));
    assert_eq!(unwrap_tokens(lex("a*b")), Ok(vec![raw("a*b")]));
}

#[test]
fn block_comments_nest() {
    assert_eq!(unwrap_tokens(lex("a /* b */ c")), Ok(vec![raw("a"), raw("c")]));
    assert_eq!(
        unwrap_tokens(lex("a /* b /* c */ d */ e")),
        Ok(vec![raw("a"), raw("e")])
    );
    assert_eq!(unwrap_tokens(lex("a /* b /* c */ d")), Ok(vec![raw("a")]));
    assert_eq!(unwrap_tokens(lex("a/* b */c")), Ok(vec![raw("ac")]));
    assert_eq!(unwrap_tokens(lex("a /* b\nc */ d")), Ok(vec![raw("a"), raw("d")]));
    assert_eq!(unwrap_tokens(lex("a /* # */ b")), Ok(vec![raw("a"), raw("b")]));
}

#[test]
fn block_comment_delimiters_may_share_a_character() {
    assert_eq!(unwrap_tokens(lex("/*/ a")), Ok(vec![raw("a")]));
    assert_eq!(unwrap_tokens(lex("/* /* */* */ a")), Ok(vec![]));
}

#[test]
fn the_end_of_a_block_comment_takes_just_its_two_characters() {
    assert_eq!(unwrap_tokens(lex("/**//")), Ok(vec![raw("/")]));
    assert_eq!(unwrap_tokens(lex("/* a *//* b */x y")), Ok(vec![raw("x"), raw("y")]));
    assert_eq!(unwrap_tokens(lex("/* a */* b")), Ok(vec![raw("*"), raw("b")]));
}

#[test]
fn tokens_carry_the_position_of_their_start() {
    assert_eq!(
        lex("ab cd"),
        Ok(vec![Token::new(1, 1, raw("ab")), Token::new(1, 4, raw("cd"))])
    );
    assert_eq!(
        lex("a\n  \"bc\" ;"),
        Ok(vec![
            Token::new(1, 1, raw("a")),
            Token::new(2, 3, string("bc")),
            Token::new(2, 8, TokenType::Semicolon),
        ])
    );
    assert_eq!(
        lex("ab{"),
        Ok(vec![Token::new(1, 1, raw("ab")), Token::new(1, 3, TokenType::OpenBrace)])
    );
    assert_eq!(
        lex("/* c */ x"),
        Ok(vec![Token::new(1, 9, raw("x"))])
    );
    assert_eq!(lex("\r\rx"), Ok(vec![Token::new(1, 1, raw("x"))]));
    assert_eq!(lex("# c\nx"), Ok(vec![Token::new(2, 1, raw("x"))]));
}

#[test]
fn the_position_tracker_counts_lines_and_columns() {
    assert_eq!(track(1, 0, 'a'), (1, 1));
    assert_eq!(track(1, 7, ' '), (1, 8));
    assert_eq!(track(1, 7, '\n'), (2, 0));
    assert_eq!(track(3, 7, '\r'), (3, 7));
}

#[test]
fn the_position_tracker_wraps_around() {
    assert_eq!(track(1, u16::MAX, 'a'), (1, 0));
    assert_eq!(track(u32::MAX, 5, '\n'), (0, 0));
}

#[test]
fn a_long_line_wraps_the_column() {
    let mut text = String::new();
    for _ in 0..65536 {
        text.push(' ');
    }
    text.push('x');
    assert_eq!(lex(&text), Ok(vec![Token::new(1, 1, raw("x"))]));
}

fn emitted(step: PreProcStep) -> Option<char> {
    match step {
        PreProcStep::Emit(c) => Some(c),
        _ => None,
    }
}

fn continued(step: PreProcStep) -> Option<PreProcState> {
    match step {
        PreProcStep::Continue(ps) => Some(ps),
        _ => None,
    }
}

fn depth(ps: Option<PreProcState>) -> Option<usize> {
    match ps {
        Some(PreProcState::MultiComment(level)) => Some(level),
        _ => None,
    }
}

#[test]
fn the_preprocessor_outside_comments() {
    let d = PreProcState::Default;
    assert_eq!(emitted(preproc_step(d, 'x', None, false)), Some('x'));
    assert_eq!(emitted(preproc_step(d, 'x', Some('/'), false)), Some('x'));
    assert_eq!(emitted(preproc_step(d, '\t', None, true)), Some(' '));
    assert_eq!(emitted(preproc_step(d, '\n', None, true)), Some(' '));
    assert_eq!(emitted(preproc_step(d, '\n', None, false)), Some(' '));
    assert_eq!(emitted(preproc_step(d, '/', Some('x'), false)), Some('/'));
    assert_eq!(emitted(preproc_step(d, '/', None, false)), Some('/'));
    assert!(matches!(
        continued(preproc_step(d, '\r', None, true)),
        Some(PreProcState::Default)
    ));
    assert!(matches!(
        continued(preproc_step(d, '#', None, false)),
        Some(PreProcState::LineComment)
    ));
    assert!(matches!(
        continued(preproc_step(d, '/', Some('/'), false)),
        Some(PreProcState::LineComment)
    ));
    assert_eq!(depth(continued(preproc_step(d, '/', Some('*'), false))), Some(1));
}

#[test]
fn the_preprocessor_inside_comments() {
    let l = PreProcState::LineComment;
    assert_eq!(emitted(preproc_step(l, '\n', None, true)), Some(' '));
    assert!(matches!(
        continued(preproc_step(l, 'x', None, false)),
        Some(PreProcState::LineComment)
    ));
    assert!(matches!(
        continued(preproc_step(l, '/', Some('*'), false)),
        Some(PreProcState::LineComment)
    ));
    let m = PreProcState::MultiComment(2);
    assert_eq!(depth(continued(preproc_step(m, 'x', None, false))), Some(2));
    assert_eq!(depth(continued(preproc_step(m, '\n', None, true))), Some(2));
    assert_eq!(depth(continued(preproc_step(m, '/', Some('*'), false))), Some(3));
    assert_eq!(depth(continued(preproc_step(m, '*', Some('/'), false))), Some(1));
    assert_eq!(depth(continued(preproc_step(m, '*', Some('x'), false))), Some(2));
    assert_eq!(depth(continued(preproc_step(m, '/', Some('/'), false))), Some(2));
    assert!(matches!(
        preproc_step(PreProcState::MultiComment(1), '*', Some('/'), false),
        PreProcStep::CloseComment
    ));
    assert!(matches!(
        preproc_step(PreProcState::MultiComment(0), '*', Some('/'), false),
        PreProcStep::CloseComment
    ));
}

#[test]
fn a_token_equals_its_clone() {
    let t = Token::new(3, 4, string("abc"));
    assert_eq!(t.clone(), t);
    assert_eq!(t.clone().token_type, string("abc"));
    assert_ne!(Token::new(3, 4, raw("abc")), t);
}
