use rs_lox::{CompileError, Scanner, Token, TokenType};

fn tokens_of(source: &str) -> Vec<(TokenType, usize, usize, u32)> {
    let mut scanner = Scanner::from_str(source).unwrap();
    let mut out = Vec::new();
    loop {
        let tok = scanner.scan_token().unwrap();
        out.push((tok.ty, tok.start_pos, tok.len, tok.line));
        if tok.ty == TokenType::EoF {
            return out;
        }
    }
}

fn kinds_of(source: &str) -> Vec<TokenType> {
    tokens_of(source).into_iter().map(|t| t.0).collect()
}

#[test]
fn scans_a_declaration() {
    assert_eq!(
        tokens_of("var x = 12.5;"),
        vec![
            (TokenType::Var, 0, 3, 1),
            (TokenType::Ident, 4, 1, 1),
            (TokenType::Equal, 6, 1, 1),
            (TokenType::Number, 8, 4, 1),
            (TokenType::Semicolon, 12, 1, 1),
            (TokenType::EoF, 13, 0, 1),
        ]
    );
}

#[test]
fn string_token_covers_the_text_between_the_quotes() {
    let mut scanner = Scanner::from_str("  \"hi\" ").unwrap();
    let tok = scanner.scan_token().unwrap();
    assert_eq!(tok.ty, TokenType::String);
    assert_eq!(tok.start_pos, 3);
    assert_eq!(tok.len, 2);
    assert_eq!(scanner.token_text(tok).unwrap(), "hi");
    assert_eq!(scanner.token_txt_str(tok).unwrap(), "hi");
    // the scanner itself stands behind the closing quote, with the lexeme from the opening one
    assert_eq!(scanner.start_pos, 2);
    assert_eq!(scanner.cur_pos, 6);
}

#[test]
fn string_may_span_lines_and_counts_them() {
    let toks = tokens_of("\"a\nb\" x");
    assert_eq!(toks[0], (TokenType::String, 1, 3, 2));
    assert_eq!(toks[1], (TokenType::Ident, 6, 1, 2));
}

#[test]
fn empty_string_has_no_text() {
    let toks = tokens_of("\"\"");
    assert_eq!(toks[0], (TokenType::String, 1, 0, 1));
}

#[test]
fn unterminated_string_is_a_syntax_error() {
    let mut scanner = Scanner::from_str("print \"abc").unwrap();
    assert_eq!(scanner.scan_token().unwrap().ty, TokenType::Print);
    match scanner.scan_token() {
        Err(CompileError::SyntaxError(msg, cite)) => {
            assert_eq!(msg, "Couldn't identify tokens");
            assert_eq!(cite, " 1 | print \"abc\n   |       ^^^^\n");
        }
        other => panic!("{:?}", other),
    }
    assert_eq!(scanner.start_pos, 6);
    assert_eq!(scanner.cur_pos, 10);
}

#[test]
fn unknown_byte_is_a_syntax_error() {
    let mut scanner = Scanner::from_str("@").unwrap();
    match scanner.scan_token() {
        Err(CompileError::SyntaxError(msg, cite)) => {
            assert_eq!(msg, "Couldn't identify tokens");
            assert_eq!(cite, " 1 | @\n   | ^\n");
        }
        other => panic!("{:?}", other),
    }
}

#[test]
fn carriage_return_is_no_blank() {
    let mut scanner = Scanner::from_str("\r").unwrap();
    assert!(matches!(scanner.scan_token(), Err(CompileError::SyntaxError(_, _))));
}

#[test]
fn non_ascii_source_is_refused() {
    assert!(matches!(Scanner::from_str("print \"é\";"), Err(CompileError::NonASCIIChar)));
}

#[test]
fn every_keyword_is_recognised() {
    assert_eq!(
        kinds_of("and class else false for fun if nil or print return super this true var while"),
        vec![
            TokenType::And,
            TokenType::Class,
            TokenType::Else,
            TokenType::False,
            TokenType::For,
            TokenType::Fun,
            TokenType::If,
            TokenType::Nil,
            TokenType::Or,
            TokenType::Print,
            TokenType::Return,
            TokenType::Super,
            TokenType::This,
            TokenType::True,
            TokenType::Var,
            TokenType::While,
            TokenType::EoF,
        ]
    );
}

#[test]
fn words_that_only_begin_like_keywords_are_identifiers() {
    assert_eq!(
        kinds_of("an andy f fo fort t tr truest _while whil o"),
        vec![
            TokenType::Ident,
            TokenType::Ident,
            TokenType::Ident,
            TokenType::Ident,
            TokenType::Ident,
            TokenType::Ident,
            TokenType::Ident,
            TokenType::Ident,
            TokenType::Ident,
            TokenType::Ident,
            TokenType::Ident,
            TokenType::EoF,
        ]
    );
}

#[test]
fn identifier_of_one_letter_at_the_end_of_the_source() {
    assert_eq!(tokens_of("a"), vec![(TokenType::Ident, 0, 1, 1), (TokenType::EoF, 1, 0, 1)]);
}

#[test]
fn punctuation_of_one_and_two_bytes() {
    assert_eq!(
        kinds_of("( ) { } ; , . - + * / ! != = == < <= > >="),
        vec![
            TokenType::LeftParen,
            TokenType::RightParen,
            TokenType::LeftBrace,
            TokenType::RightBrace,
            TokenType::Semicolon,
            TokenType::Comma,
            TokenType::Dot,
            TokenType::Minus,
            TokenType::Plus,
            TokenType::Star,
            TokenType::Slash,
            TokenType::Bang,
            TokenType::BangEqual,
            TokenType::Equal,
            TokenType::EqualEqual,
            TokenType::Less,
            TokenType::LessEqual,
            TokenType::Greater,
            TokenType::GreaterEqual,
            TokenType::EoF,
        ]
    );
}

#[test]
fn number_takes_every_dot_behind_it() {
    assert_eq!(tokens_of("1.2.3")[0], (TokenType::Number, 0, 5, 1));
    assert_eq!(tokens_of("7.")[0], (TokenType::Number, 0, 2, 1));
    // a dot in front is a token of its own
    assert_eq!(kinds_of(".5"), vec![TokenType::Dot, TokenType::Number, TokenType::EoF]);
}

#[test]
fn comment_runs_to_the_line_feed() {
    assert_eq!(
        tokens_of("1 // one\n2"),
        vec![
            (TokenType::Number, 0, 1, 1),
            (TokenType::Number, 9, 1, 2),
            (TokenType::EoF, 10, 0, 2),
        ]
    );
}

#[test]
fn comment_at_the_end_gives_an_end_of_file_token_that_covers_it() {
    assert_eq!(
        tokens_of("1 // one"),
        vec![(TokenType::Number, 0, 1, 1), (TokenType::EoF, 2, 6, 1)]
    );
}

#[test]
fn blanks_and_line_feeds_are_passed_over() {
    assert_eq!(
        tokens_of(" \t\n\n x"),
        vec![(TokenType::Ident, 5, 1, 3), (TokenType::EoF, 6, 0, 3)]
    );
}

#[test]
fn end_of_file_again_and_again() {
    let mut scanner = Scanner::from_str("").unwrap();
    assert_eq!(scanner.scan_token().unwrap().ty, TokenType::EoF);
    assert_eq!(scanner.scan_token().unwrap().ty, TokenType::EoF);
    assert_eq!(scanner.line, 1);
}

#[test]
fn token_make_and_empty() {
    let mut scanner = Scanner::from_str("abc").unwrap();
    scanner.scan_token().unwrap();
    let tok = Token::make(TokenType::Ident, &scanner);
    assert_eq!((tok.ty, tok.start_pos, tok.len, tok.line), (TokenType::Ident, 0, 3, 1));
    let tok = Token::make(TokenType::String, &scanner);
    assert_eq!((tok.ty, tok.start_pos, tok.len, tok.line), (TokenType::String, 1, 1, 1));
    let tok = Token::empty(7);
    assert_eq!((tok.ty, tok.start_pos, tok.len, tok.line), (TokenType::Error, 0, 0, 7));
}

#[test]
fn syntax_error_cites_the_source() {
    // the citation is made from the bytes: it holds the text that they encode
    match CompileError::syntax(b"print x", "msg", 6, 7) {
        CompileError::SyntaxError(msg, cite) => {
            assert_eq!(msg, "msg");
            assert_eq!(cite, " 1 | print x\n   |       ^\n");
        }
        other => panic!("{:?}", other),
    }
    match CompileError::syntax("a\u{e9}b".as_bytes(), "m", 0, 1) {
        CompileError::SyntaxError(_, cite) => {
            assert_eq!(cite, " 1 | a\u{e9}b\n   | ^^^\n");
        }
        other => panic!("{:?}", other),
    }
}

#[test]
fn unexpected_error_names_both_kinds() {
    match CompileError::unexpected(b"x y", TokenType::Ident, TokenType::Semicolon, 2, 3) {
        CompileError::UnexpectedToken(expected, found, cite) => {
            assert_eq!(expected, TokenType::Semicolon);
            assert_eq!(found, TokenType::Ident);
            assert_eq!(cite, " 1 | x y\n   |   ^\n");
        }
        other => panic!("{:?}", other),
    }
}

#[test]
fn all_tokens_at_once() {
    let tokens = rs_lox::scanner::scan_all("a = \"b\";\n// c").unwrap();
    let seen: Vec<(TokenType, usize, usize, u32)> =
        tokens.iter().map(|t| (t.ty, t.start_pos, t.len, t.line)).collect();
    assert_eq!(
        seen,
        vec![
            (TokenType::Ident, 0, 1, 1),
            (TokenType::Equal, 2, 1, 1),
            (TokenType::String, 5, 1, 1),
            (TokenType::Semicolon, 7, 1, 1),
            (TokenType::EoF, 9, 4, 2),
        ]
    );
    assert!(matches!(
        rs_lox::scanner::scan_all("a ? b"),
        Err(CompileError::SyntaxError(_, _))
    ));
    assert!(matches!(rs_lox::scanner::scan_all("\u{df}"), Err(CompileError::NonASCIIChar)));
    assert_eq!(rs_lox::scanner::scan_all("").unwrap().len(), 1);
}
