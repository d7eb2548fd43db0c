use nimble::error::LexErrorKind;
use nimble::lexer::{Lexer, Span, Token};

fn lex(src: &str) -> Vec<(Token, Span)> {
    Lexer::new(src).tokenize().expect("source should lex")
}

fn kinds(src: &str) -> Vec<Token> {
    lex(src).into_iter().map(|(t, _)| t).collect()
}

#[test]
fn span_arithmetic() {
    let a = Span::new(3, 4);
    assert_eq!(a.end(), 7);
    let b = Span::new(10, 2);
    assert_eq!(a.join(b), Span::new(3, 9));
    assert_eq!(Span::point(5), Span::new(5, 0));
    assert_eq!(Span::default(), Span::new(0, 0));
}

#[test]
fn assignment_tokens_and_spans() {
    let toks = lex("x = 42\n");
    let expected = vec![
        (Token::Ident("x".to_string()), Span::new(0, 1)),
        (Token::Assign, Span::new(2, 1)),
        (Token::Int(42), Span::new(4, 2)),
        (Token::Newline, Span::new(6, 1)),
        (Token::Eof, Span::new(7, 0)),
    ];
    assert_eq!(toks, expected);
}

#[test]
fn keywords_and_operators() {
    let ks = kinds("fn f(a) -> int: return a+=1 != 2 .. 3");
    assert_eq!(
        ks,
        vec![
            Token::Fn,
            Token::Ident("f".to_string()),
            Token::LParen,
            Token::Ident("a".to_string()),
            Token::RParen,
            Token::Arrow,
            Token::Ident("int".to_string()),
            Token::Colon,
            Token::Return,
            Token::Ident("a".to_string()),
            Token::PlusEq,
            Token::Int(1),
            Token::BangEq,
            Token::Int(2),
            Token::DotDot,
            Token::Int(3),
            Token::Eof,
        ]
    );
}

#[test]
fn indentation_produces_indent_and_dedent() {
    let ks = kinds("if x:\n    y\nz\n");
    assert_eq!(
        ks,
        vec![
            Token::If,
            Token::Ident("x".to_string()),
            Token::Colon,
            Token::Newline,
            Token::Indent,
            Token::Ident("y".to_string()),
            Token::Newline,
            Token::Dedent,
            Token::Ident("z".to_string()),
            Token::Newline,
            Token::Eof,
        ]
    );
}

#[test]
fn open_blocks_are_closed_at_end_of_input() {
    let ks = kinds("while x:\n    y");
    assert_eq!(ks[ks.len() - 2], Token::Dedent);
    assert_eq!(ks[ks.len() - 1], Token::Eof);
}

#[test]
fn newlines_inside_brackets_are_skipped() {
    let ks = kinds("[1,\n2]\n");
    assert_eq!(
        ks,
        vec![
            Token::LBracket,
            Token::Int(1),
            Token::Comma,
            Token::Int(2),
            Token::RBracket,
            Token::Newline,
            Token::Eof,
        ]
    );
}

#[test]
fn comments_are_skipped() {
    let ks = kinds("a # note\nb");
    assert_eq!(
        ks,
        vec![
            Token::Ident("a".to_string()),
            Token::Newline,
            Token::Ident("b".to_string()),
            Token::Eof,
        ]
    );
}

#[test]
fn literals() {
    let ks = kinds("3.25 \"a\\nb\" 'q' true false null");
    assert_eq!(
        ks,
        vec![
            Token::Float("3.25".to_string()),
            Token::Str("a\nb".to_string()),
            Token::Str("q".to_string()),
            Token::Bool(true),
            Token::Bool(false),
            Token::Null,
            Token::Eof,
        ]
    );
}

#[test]
fn stray_bang_is_an_invalid_token() {
    let err = Lexer::new("a ! b").tokenize().unwrap_err();
    assert_eq!(err.kind, LexErrorKind::InvalidToken('!'));
    assert_eq!(err.span, Span::new(2, 1));
}

#[test]
fn unterminated_string_is_an_error() {
    let err = Lexer::new("\"abc").tokenize().unwrap_err();
    assert_eq!(err.kind, LexErrorKind::UnterminatedString);
}

#[test]
fn dedent_to_unknown_level_is_an_error() {
    let err = Lexer::new("if a:\n    b\n  c\n").tokenize().unwrap_err();
    assert_eq!(err.kind, LexErrorKind::Indentation { expected: 0, found: 2 });
}

#[test]
fn too_large_integer_is_an_error() {
    let err = Lexer::new("99999999999999999999").tokenize().unwrap_err();
    assert_eq!(err.kind, LexErrorKind::InvalidNumber);
}

#[test]
fn lex_error_messages() {
    let err = Lexer::new("a $").tokenize().unwrap_err();
    assert_eq!(err.message(), "invalid token `$`");
    let err = Lexer::new("'x").tokenize().unwrap_err();
    assert_eq!(err.message(), "unterminated string literal");
}

#[test]
fn unicode_identifiers_and_byte_offsets() {
    let toks = lex("é = 1");
    assert_eq!(toks[0], (Token::Ident("é".to_string()), Span::new(0, 2)));
    assert_eq!(toks[1], (Token::Assign, Span::new(3, 1)));
}

#[test]
fn indents_and_dedents_pair_up() {
    let src = "fn f():\n    if a:\n        if b:\n            c\n    d\ne\nwhile x:\n    while y:\n        z";
    let ks = kinds(src);
    let indents = ks.iter().filter(|t| **t == Token::Indent).count();
    let dedents = ks.iter().filter(|t| **t == Token::Dedent).count();
    assert_eq!(indents, 5);
    assert_eq!(dedents, 5);
    assert_eq!(ks.iter().filter(|t| **t == Token::Eof).count(), 1);
    assert_eq!(ks.last(), Some(&Token::Eof));
}

#[test]
fn spans_lie_in_the_source_in_order() {
    let src = "fn f(é):\n    return é + 1\nx = \"s\"\n";
    let toks = lex(src);
    let (last, last_span) = toks.last().unwrap().clone();
    assert_eq!(last, Token::Eof);
    assert_eq!(last_span, Span::new(src.len(), 0));
    for w in toks.windows(2) {
        assert!(w[0].1.start <= w[1].1.start);
    }
    for (t, s) in &toks {
        assert!(s.start + s.len <= src.len());
        if let Token::Ident(name) = t {
            assert_eq!(&src[s.start..s.start + s.len], name.as_str());
        }
    }
}
