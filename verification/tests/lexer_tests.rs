use rolang::error::ErrorKind;
use rolang::lexer::{tokenize, Lexer};
use rolang::tokens::{Token, TokenType};

fn kinds(code: &str) -> Vec<TokenType> {
    tokenize("test", code).unwrap().iter().map(|t| t.token_type).collect()
}

fn lexemes(tokens: &[Token]) -> Vec<String> {
    tokens.iter().map(|t| t.lexeme.clone()).collect()
}

#[test]
fn maximal_munch_less_equal() {
    let tokens = tokenize("test", "a<=b").unwrap();
    let found: Vec<TokenType> = tokens.iter().map(|t| t.token_type).collect();
    assert_eq!(
        found,
        vec![TokenType::Identifier, TokenType::LessEq, TokenType::Identifier, TokenType::Eof]
    );
    assert_eq!(lexemes(&tokens), vec!["a", "<=", "b", ""]);
}

#[test]
fn longest_operator_wins() {
    assert_eq!(kinds("**"), vec![TokenType::StarStar, TokenType::Eof]);
    assert_eq!(kinds("* *"), vec![TokenType::Star, TokenType::Star, TokenType::Eof]);
    assert_eq!(kinds("!="), vec![TokenType::NotEq, TokenType::Eof]);
    assert_eq!(kinds("!x"), vec![TokenType::Bang, TokenType::Identifier, TokenType::Eof]);
    assert_eq!(kinds("..="), vec![TokenType::DotDotEq, TokenType::Eof]);
    assert_eq!(kinds(".."), vec![TokenType::DotDot, TokenType::Eof]);
    assert_eq!(kinds("."), vec![TokenType::Dot, TokenType::Eof]);
    assert_eq!(kinds("<<"), vec![TokenType::Shl, TokenType::Eof]);
    assert_eq!(kinds("<=="), vec![TokenType::LessEq, TokenType::Assign, TokenType::Eof]);
    assert_eq!(kinds("&&&"), vec![TokenType::AndAnd, TokenType::Ampersand, TokenType::Eof]);
    assert_eq!(kinds("+=-=*=/=%="), vec![
        TokenType::PlusAssign,
        TokenType::MinusAssign,
        TokenType::StarAssign,
        TokenType::SlashAssign,
        TokenType::PercentAssign,
        TokenType::Eof
    ]);
}

#[test]
fn every_single_symbol() {
    assert_eq!(kinds("( ) { } , . ; + - * / % ! = < > & | ^"), vec![
        TokenType::LParen,
        TokenType::RParen,
        TokenType::LBrace,
        TokenType::RBrace,
        TokenType::Comma,
        TokenType::Dot,
        TokenType::Semicolon,
        TokenType::Plus,
        TokenType::Minus,
        TokenType::Star,
        TokenType::Slash,
        TokenType::Percent,
        TokenType::Bang,
        TokenType::Assign,
        TokenType::Less,
        TokenType::Greater,
        TokenType::Ampersand,
        TokenType::Pipe,
        TokenType::Caret,
        TokenType::Eof
    ]);
}

#[test]
fn empty_text_is_the_end_token() {
    let tokens = tokenize("test", "").unwrap();
    assert_eq!(tokens.len(), 1);
    assert_eq!(tokens[0].token_type, TokenType::Eof);
    assert_eq!(tokens[0].start.line, 1);
    assert_eq!(tokens[0].start.column, 1);
    assert_eq!(tokens[0].start.offset, 0);
    assert_eq!(tokens[0].start.source, "test");
}

#[test]
fn reserved_words_and_names() {
    assert_eq!(
        kinds("if else for in while loop fun class try catch var break continue return static"),
        vec![
            TokenType::If,
            TokenType::Else,
            TokenType::For,
            TokenType::In,
            TokenType::While,
            TokenType::Loop,
            TokenType::Fun,
            TokenType::Class,
            TokenType::Try,
            TokenType::Catch,
            TokenType::Var,
            TokenType::Break,
            TokenType::Continue,
            TokenType::Return,
            TokenType::Static,
            TokenType::Eof
        ]
    );
    assert_eq!(kinds("true false null"), vec![
        TokenType::True,
        TokenType::False,
        TokenType::Null,
        TokenType::Eof
    ]);
    assert_eq!(kinds("iff _if if_ If"), vec![
        TokenType::Identifier,
        TokenType::Identifier,
        TokenType::Identifier,
        TokenType::Identifier,
        TokenType::Eof
    ]);
}

#[test]
fn numbers_and_ranges() {
    let tokens = tokenize("test", "12 3.50 1..3 7.x").unwrap();
    let found: Vec<TokenType> = tokens.iter().map(|t| t.token_type).collect();
    assert_eq!(found, vec![
        TokenType::Number,
        TokenType::Number,
        TokenType::Number,
        TokenType::DotDot,
        TokenType::Number,
        TokenType::Number,
        TokenType::Dot,
        TokenType::Identifier,
        TokenType::Eof
    ]);
    assert_eq!(lexemes(&tokens), vec!["12", "3.50", "1", "..", "3", "7", ".", "x", ""]);
}

#[test]
fn malformed_numbers() {
    let e = tokenize("test", "x = 1.2.3").unwrap_err();
    assert_eq!(e.kind, ErrorKind::LexicalError);
    assert_eq!(e.message, "Malformed number literal");
    assert_eq!((e.start.line, e.start.column, e.start.offset), (1, 5, 4));
    assert_eq!((e.end.line, e.end.column, e.end.offset), (1, 8, 7));

    let e = tokenize("test", "12abc").unwrap_err();
    assert_eq!(e.kind, ErrorKind::LexicalError);
    assert_eq!(e.message, "Malformed number literal");
    assert_eq!((e.start.offset, e.end.offset), (0, 2));
}

#[test]
fn numbers_are_exact_or_refused() {
    // 2^96 - 1 is the largest mantissa
    assert!(tokenize("test", "79228162514264337593543950335").is_ok());
    let e = tokenize("test", "79228162514264337593543950336").unwrap_err();
    assert_eq!(e.kind, ErrorKind::LexicalError);
    assert_eq!(e.message, "Malformed number literal");
    // 28 fractional digits are held, 29 are not
    assert!(tokenize("test", "0.1234567890123456789012345678").is_ok());
    assert!(tokenize("test", "0.12345678901234567890123456789").is_err());
}

#[test]
fn strings_with_escapes() {
    let tokens = tokenize("test", r#""a\n\t\\\"b" 'it''s' '\'' "\0\r""#).unwrap();
    let found: Vec<TokenType> = tokens.iter().map(|t| t.token_type).collect();
    assert_eq!(found, vec![
        TokenType::String,
        TokenType::String,
        TokenType::String,
        TokenType::String,
        TokenType::String,
        TokenType::Eof
    ]);
    assert_eq!(lexemes(&tokens), vec!["a\n\t\\\"b", "it", "s", "'", "\0\r", ""]);
}

#[test]
fn unterminated_string_points_at_the_opening_quote() {
    let e = tokenize("test", "var s = \"abc").unwrap_err();
    assert_eq!(e.kind, ErrorKind::LexicalError);
    assert_eq!(e.message, "Unterminated string");
    assert_eq!((e.start.line, e.start.column, e.start.offset), (1, 9, 8));
    assert_eq!((e.end.line, e.end.column, e.end.offset), (1, 10, 9));

    let e = tokenize("test", "'abc\\").unwrap_err();
    assert_eq!(e.message, "Unterminated string");
    assert_eq!((e.start.offset, e.end.offset), (0, 1));
}

#[test]
fn unknown_escape() {
    let e = tokenize("test", "\"a\\qb\"").unwrap_err();
    assert_eq!(e.kind, ErrorKind::LexicalError);
    assert_eq!(e.message, "Unknown escape sequence");
    assert_eq!((e.start.offset, e.end.offset), (2, 4));
}

#[test]
fn unexpected_character() {
    let e = tokenize("test", "a\n  # b").unwrap_err();
    assert_eq!(e.kind, ErrorKind::LexicalError);
    assert_eq!(e.message, "Unexpected character");
    assert_eq!((e.start.line, e.start.column, e.start.offset), (2, 3, 4));
    assert_eq!((e.end.line, e.end.column, e.end.offset), (2, 4, 5));
}

#[test]
fn scanning_stops_at_the_first_problem() {
    let e = tokenize("test", "a $ \"open").unwrap_err();
    assert_eq!(e.message, "Unexpected character");
    assert_eq!(e.start.offset, 2);
}

#[test]
fn blanks_and_comments_give_no_tokens() {
    assert_eq!(kinds("  a // b c d\n\t// only a comment\r\n b //"), vec![
        TokenType::Identifier,
        TokenType::Identifier,
        TokenType::Eof
    ]);
    assert_eq!(kinds("a / b"), vec![
        TokenType::Identifier,
        TokenType::Slash,
        TokenType::Identifier,
        TokenType::Eof
    ]);
    assert_eq!(kinds("// nothing"), vec![TokenType::Eof]);
}

#[test]
fn locations_count_lines_and_columns() {
    let tokens = tokenize("file.ro", "var x\n  = 10;\n").unwrap();
    let at: Vec<(usize, usize, usize)> =
        tokens.iter().map(|t| (t.start.line, t.start.column, t.start.offset)).collect();
    assert_eq!(at, vec![(1, 1, 0), (1, 5, 4), (2, 3, 8), (2, 5, 10), (2, 7, 12), (3, 1, 14)]);
    let ends: Vec<(usize, usize, usize)> =
        tokens.iter().map(|t| (t.end.line, t.end.column, t.end.offset)).collect();
    assert_eq!(ends, vec![(1, 4, 3), (1, 6, 5), (2, 4, 9), (2, 7, 12), (2, 8, 13), (3, 1, 14)]);
    for t in &tokens {
        assert_eq!(t.start.source, "file.ro");
        assert!(t.start.offset <= t.end.offset);
    }
}

#[test]
fn a_lexer_can_be_scanned_step_by_step() {
    let mut lexer = Lexer::new("test", "a + b");
    let tokens = lexer.scan().unwrap();
    assert_eq!(tokens.len(), 4);
    // the cursor now stands at the end: scanning again gives the end token only
    let rest = lexer.scan().unwrap();
    assert_eq!(rest.len(), 1);
    assert_eq!(rest[0].token_type, TokenType::Eof);
}
