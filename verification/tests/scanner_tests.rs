use lochx::error::RuntimeError;
use lochx::interner::Interner;
use lochx::literal::LiteralValue;
use lochx::scanner::Scanner;
use lochx::source::append_source;
use lochx::token::{SourcePosition, Token, TokenType};

fn scan(source: &str) -> (Vec<Token>, Vec<RuntimeError>, Interner) {
    let mut interner = Interner::new();
    let mut scanner = Scanner::new(source, 0);
    let tokens = scanner.scan_tokens(&mut interner);
    (tokens, scanner.errors, interner)
}

fn types(source: &str) -> Vec<TokenType> {
    scan(source).0.iter().map(|t| t.token_type).collect()
}

#[test]
fn scans_operators_greedily() {
    assert_eq!(
        types("!= ! == = <= < >= >"),
        vec![
            TokenType::BangEqual,
            TokenType::Bang,
            TokenType::EqualEqual,
            TokenType::Equal,
            TokenType::LessEqual,
            TokenType::Less,
            TokenType::GreaterEqual,
            TokenType::Greater,
            TokenType::Eof,
        ]
    );
    assert_eq!(
        types("==="),
        vec![TokenType::EqualEqual, TokenType::Equal, TokenType::Eof]
    );
    assert_eq!(types("!"), vec![TokenType::Bang, TokenType::Eof]);
}

#[test]
fn scans_single_character_tokens() {
    assert_eq!(
        types("(){},.-+;*/"),
        vec![
            TokenType::LeftParen,
            TokenType::RightParen,
            TokenType::LeftBrace,
            TokenType::RightBrace,
            TokenType::Comma,
            TokenType::Dot,
            TokenType::Minus,
            TokenType::Plus,
            TokenType::Semicolon,
            TokenType::Star,
            TokenType::Slash,
            TokenType::Eof,
        ]
    );
}

#[test]
fn empty_source_gives_only_end_of_input() {
    let (tokens, errors, _) = scan("");
    assert_eq!(tokens.len(), 1);
    assert_eq!(tokens[0].token_type, TokenType::Eof);
    assert_eq!(tokens[0].position, SourcePosition { line: 1, start: 0, end: 0 });
    assert!(errors.is_empty());
}

#[test]
fn scans_keywords_after_the_whole_identifier() {
    assert_eq!(
        types("and class else false for fun if nil or print return super this true var while"),
        vec![
            TokenType::KwAnd,
            TokenType::KwClass,
            TokenType::KwElse,
            TokenType::KwFalse,
            TokenType::KwFor,
            TokenType::KwFun,
            TokenType::KwIf,
            TokenType::KwNil,
            TokenType::KwOr,
            TokenType::KwPrint,
            TokenType::KwReturn,
            TokenType::KwSuper,
            TokenType::KwThis,
            TokenType::KwTrue,
            TokenType::KwVar,
            TokenType::KwWhile,
            TokenType::Eof,
        ]
    );
    assert_eq!(
        types("orchid classy fun_ x_1 init clock"),
        vec![
            TokenType::Identifier,
            TokenType::Identifier,
            TokenType::Identifier,
            TokenType::Identifier,
            TokenType::Identifier,
            TokenType::Identifier,
            TokenType::Eof,
        ]
    );
}

#[test]
fn underscore_starts_no_identifier() {
    let (tokens, errors, _) = scan("_x");
    assert_eq!(errors.len(), 1);
    assert_eq!(tokens[0].token_type, TokenType::Identifier);
    assert_eq!(tokens[0].position.start, 1);
}

#[test]
fn scans_numbers() {
    let (tokens, errors, interner) = scan("12 3.25 7. .5 1.2.3");
    assert!(errors.is_empty());
    let seen: Vec<(TokenType, String)> = tokens
        .iter()
        .map(|t| {
            (
                t.token_type,
                if t.token_type == TokenType::Number {
                    interner.text(t.symbol).to_string()
                } else {
                    String::new()
                },
            )
        })
        .collect();
    assert_eq!(
        seen,
        vec![
            (TokenType::Number, "12".to_string()),
            (TokenType::Number, "3.25".to_string()),
            (TokenType::Number, "7".to_string()),
            (TokenType::Dot, String::new()),
            (TokenType::Dot, String::new()),
            (TokenType::Number, "5".to_string()),
            (TokenType::Number, "1.2".to_string()),
            (TokenType::Dot, String::new()),
            (TokenType::Number, "3".to_string()),
            (TokenType::Eof, String::new()),
        ]
    );
    assert_eq!(tokens[0].literal_num(), None);
    assert_eq!(tokens[0].with_number(5).literal_num(), Some(5));
    assert_eq!(tokens[0].with_number(5).position, tokens[0].position);
}

#[test]
fn scans_strings_without_their_quotes() {
    let (tokens, errors, interner) = scan("\"hello\" \"\" \"a\nb\"");
    assert!(errors.is_empty());
    assert_eq!(
        tokens.iter().map(|t| t.token_type).collect::<Vec<_>>(),
        vec![TokenType::String, TokenType::String, TokenType::String, TokenType::Eof]
    );
    assert_eq!(interner.text(tokens[0].literal_str().unwrap()), "hello");
    assert_eq!(interner.text(tokens[1].literal_str().unwrap()), "");
    assert_eq!(interner.text(tokens[2].literal_str().unwrap()), "a\nb");
    assert!(matches!(tokens[0].literal, Some(LiteralValue::Str(_))));
    assert_eq!(tokens[0].literal_num(), None);
    assert_eq!(tokens[0].position, SourcePosition { line: 1, start: 0, end: 7 });
    assert_eq!(tokens[2].position, SourcePosition { line: 2, start: 11, end: 16 });
}

#[test]
fn counts_lines() {
    let (tokens, _, _) = scan("a\nb // c\n\n  d");
    let lines: Vec<usize> = tokens.iter().map(|t| t.position.line).collect();
    assert_eq!(lines, vec![1, 2, 4, 4]);
}

#[test]
fn comment_runs_to_the_end_of_the_line() {
    assert_eq!(types("// a b c"), vec![TokenType::Eof]);
    assert_eq!(
        types("1 // two\n3"),
        vec![TokenType::Number, TokenType::Number, TokenType::Eof]
    );
    assert_eq!(types("/ /"), vec![TokenType::Slash, TokenType::Slash, TokenType::Eof]);
}

#[test]
fn unexpected_character_is_reported_and_skipped() {
    let (tokens, errors, _) = scan("a @ b");
    assert_eq!(
        tokens.iter().map(|t| t.token_type).collect::<Vec<_>>(),
        vec![TokenType::Identifier, TokenType::Identifier, TokenType::Eof]
    );
    assert_eq!(errors.len(), 1);
    match errors[0] {
        RuntimeError::ScanError { location } => {
            assert_eq!(location, SourcePosition { line: 1, start: 2, end: 3 })
        }
        _ => panic!("not a scan error"),
    }
}

#[test]
fn unterminated_string_is_reported_from_its_start() {
    let (tokens, errors, _) = scan("a \"bc\nd");
    assert_eq!(
        tokens.iter().map(|t| t.token_type).collect::<Vec<_>>(),
        vec![TokenType::Identifier, TokenType::Eof]
    );
    assert_eq!(errors.len(), 1);
    match errors[0] {
        RuntimeError::ScanError { location } => {
            assert_eq!(location, SourcePosition { line: 2, start: 2, end: 7 })
        }
        _ => panic!("not a scan error"),
    }
}

#[test]
fn end_of_input_spans_from_the_last_lexeme() {
    let (tokens, _, _) = scan("ab cd");
    assert_eq!(tokens[2].token_type, TokenType::Eof);
    assert_eq!(tokens[2].position, SourcePosition { line: 1, start: 3, end: 5 });
}

#[test]
fn spans_are_byte_ranges() {
    let source = "é = \"→x\"; ünï";
    let (tokens, errors, interner) = scan(source);
    assert!(errors.is_empty());
    assert_eq!(
        tokens.iter().map(|t| t.token_type).collect::<Vec<_>>(),
        vec![
            TokenType::Identifier,
            TokenType::Equal,
            TokenType::String,
            TokenType::Semicolon,
            TokenType::Identifier,
            TokenType::Eof
        ]
    );
    assert_eq!((tokens[0].position.start, tokens[0].position.end), (0, 2));
    assert_eq!((tokens[2].position.start, tokens[2].position.end), (5, 11));
    assert_eq!(tokens[2].lexeme(source), Some("\"→x\""));
    assert_eq!(interner.text(tokens[2].literal_str().unwrap()), "→x");
    assert_eq!(tokens[4].lexeme(source), Some("ünï"));
}

fn round_trip(source: &str) {
    let (tokens, _, interner) = scan(source);
    let last = tokens.len() - 1;
    let mut previous_end = 0;
    for t in &tokens[..last] {
        let lexeme = t.lexeme(source).expect("the span fits the source");
        assert_eq!(lexeme, &source[t.position.start..t.position.end]);
        assert!(!lexeme.is_empty());
        assert!(previous_end <= t.position.start);
        previous_end = t.position.end;
        match t.token_type {
            TokenType::String => {
                let inner = interner.text(t.literal_str().unwrap());
                assert_eq!(lexeme, format!("\"{}\"", inner));
            }
            TokenType::Number | TokenType::Identifier => {
                assert_eq!(lexeme, interner.text(t.symbol));
            }
            _ => {}
        }
    }
    assert_eq!(tokens[last].token_type, TokenType::Eof);
    assert_eq!(tokens[last].position.end, source.len());
}

#[test]
fn lexemes_are_the_source_at_their_spans() {
    round_trip("var x = 12.5; // c\nprint \"s→\" + x;\nclass Ä < B { f(a,b) { return a<=b; } }");
    round_trip("");
    round_trip("@#\"open");
    round_trip("a.b(c).d = !-1 / 2 * (3 - 4) >= 5 != nil and true or false;");
}

#[test]
fn offset_shifts_every_span() {
    let mut buffer = String::new();
    let first = "print ä;";
    let second = "print b1;";
    assert_eq!(append_source(&mut buffer, first), 0);
    let offset = append_source(&mut buffer, second);
    assert_eq!(offset, 10);
    assert_eq!(buffer, "print ä;\nprint b1;");
    let mut interner = Interner::new();
    let mut scanner = Scanner::new(second, offset);
    let tokens = scanner.scan_tokens(&mut interner);
    assert_eq!(tokens[0].position, SourcePosition { line: 1, start: 10, end: 15 });
    assert_eq!(tokens[1].lexeme(&buffer), Some("b1"));
    assert_eq!(tokens[0].lexeme(&buffer), Some("print"));
    assert_eq!(tokens[2].lexeme(&buffer), Some(";"));
    assert_eq!(tokens[1].lexeme(second), None);
}

#[test]
fn lexeme_refuses_spans_that_do_not_fit() {
    let source = "aé";
    let at = |start, end| Token::new(
        TokenType::Identifier,
        SourcePosition { line: 1, start, end },
        0,
        None,
    );
    assert_eq!(at(0, 3).lexeme(source), Some("aé"));
    assert_eq!(at(1, 3).lexeme(source), Some("é"));
    assert_eq!(at(0, 0).lexeme(source), Some(""));
    assert_eq!(at(3, 3).lexeme(source), Some(""));
    assert_eq!(at(0, 2).lexeme(source), None);
    assert_eq!(at(2, 3).lexeme(source), None);
    assert_eq!(at(2, 1).lexeme(source), None);
    assert_eq!(at(0, 4).lexeme(source), None);
}

#[test]
fn tokens_are_the_same_when_they_stand_at_the_same_place() {
    let (tokens, _, _) = scan("a a");
    assert_eq!(tokens[0].symbol, tokens[1].symbol);
    assert!(!tokens[0].same_token(&tokens[1]));
    assert!(tokens[0].same_token(&tokens[0].with_number(1)));
}

#[test]
fn append_source_starts_a_buffer_and_joins_with_newlines() {
    let mut buffer = String::new();
    assert_eq!(append_source(&mut buffer, ""), 0);
    assert_eq!(buffer, "");
    assert_eq!(append_source(&mut buffer, "ab"), 0);
    assert_eq!(buffer, "ab");
    assert_eq!(append_source(&mut buffer, ""), 3);
    assert_eq!(buffer, "ab\n");
    assert_eq!(append_source(&mut buffer, "é"), 4);
    assert_eq!(buffer, "ab\n\né");
    assert_eq!(append_source(&mut buffer, "x"), 7);
}
