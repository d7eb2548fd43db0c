use nimble::error::ParseError;
use nimble::lexer::{Lexer, Span, Token};
use nimble::parser::ast::{BinOp, ExprKind, InterpPart, Stmt, StmtKind, UnaryOp};
use nimble::parser::{Parser, Precedence};

fn parse(src: &str) -> Result<Vec<Stmt>, Vec<ParseError>> {
    let tokens = Lexer::new(src).tokenize().expect("source should lex");
    Parser::new(tokens).parse()
}

fn parse_ok(src: &str) -> Vec<Stmt> {
    parse(src).expect("source should parse")
}

fn single_expr(src: &str) -> ExprKind {
    let mut stmts = parse_ok(src);
    assert_eq!(stmts.len(), 1);
    match stmts.remove(0).kind {
        StmtKind::Expr(e) => e.kind,
        other => panic!("expected an expression statement, got {:?}", other),
    }
}

#[test]
fn multiplication_binds_tighter_than_addition() {
    match single_expr("1 + 2 * 3") {
        ExprKind::BinOp { op: BinOp::Plus, left, right } => {
            assert!(matches!(left.kind, ExprKind::Int(1)));
            match right.kind {
                ExprKind::BinOp { op: BinOp::Star, left, right } => {
                    assert!(matches!(left.kind, ExprKind::Int(2)));
                    assert!(matches!(right.kind, ExprKind::Int(3)));
                }
                other => panic!("unexpected {:?}", other),
            }
        }
        other => panic!("unexpected {:?}", other),
    }
}

#[test]
fn subtraction_is_left_associative() {
    match single_expr("8 - 3 - 1") {
        ExprKind::BinOp { op: BinOp::Minus, left, right } => {
            assert!(matches!(left.kind, ExprKind::BinOp { op: BinOp::Minus, .. }));
            assert!(matches!(right.kind, ExprKind::Int(1)));
        }
        other => panic!("unexpected {:?}", other),
    }
}

#[test]
fn unary_and_call_and_field() {
    assert!(matches!(single_expr("-x"), ExprKind::UnaryOp { op: UnaryOp::Minus, .. }));
    assert!(matches!(single_expr("not x"), ExprKind::UnaryOp { op: UnaryOp::Not, .. }));
    match single_expr("f(1, name=2)") {
        ExprKind::Call { args, .. } => {
            assert_eq!(args.len(), 2);
            assert_eq!(args[0].name, None);
            assert_eq!(args[1].name, Some("name".to_string()));
        }
        other => panic!("unexpected {:?}", other),
    }
    match single_expr("user.name") {
        ExprKind::Field { field, .. } => assert_eq!(field, "name"),
        other => panic!("unexpected {:?}", other),
    }
}

#[test]
fn list_and_map_literals() {
    match single_expr("[1, 2, 3]") {
        ExprKind::List(items) => assert_eq!(items.len(), 3),
        other => panic!("unexpected {:?}", other),
    }
    match single_expr("{\"a\": 1, \"b\": 2}") {
        ExprKind::Dict(pairs) => assert_eq!(pairs.len(), 2),
        other => panic!("unexpected {:?}", other),
    }
}

#[test]
fn interpolated_string_parts() {
    match single_expr("\"{name}:{age}\"") {
        ExprKind::Interp(parts) => {
            assert_eq!(parts.len(), 3);
            assert!(matches!(&parts[0], InterpPart::Expr(_)));
            assert!(matches!(&parts[1], InterpPart::Str(s) if s == ":"));
            assert!(matches!(&parts[2], InterpPart::Expr(_)));
        }
        other => panic!("unexpected {:?}", other),
    }
}

#[test]
fn doubled_braces_are_literal_braces() {
    match single_expr("\"{{x}}\"") {
        ExprKind::Str(s) => assert_eq!(s, "{x}"),
        other => panic!("unexpected {:?}", other),
    }
}

#[test]
fn interpolated_expressions_take_the_literal_span() {
    let src = "\"v={a + b}\"";
    match single_expr(src) {
        ExprKind::Interp(parts) => match &parts[1] {
            InterpPart::Expr(e) => assert_eq!(e.span, Span::new(0, src.len())),
            other => panic!("unexpected {:?}", other),
        },
        other => panic!("unexpected {:?}", other),
    }
}

#[test]
fn assignments() {
    let stmts = parse_ok("x = 1\nx += 2\nuser.age = 3\nitems[0] = 4\ny int = 5\n");
    assert_eq!(stmts.len(), 5);
    assert!(matches!(&stmts[0].kind, StmtKind::Assign { target, ty: None, .. } if target == "x"));
    match &stmts[1].kind {
        StmtKind::Assign { value, .. } => {
            assert!(matches!(value.kind, ExprKind::BinOp { op: BinOp::Plus, .. }))
        }
        other => panic!("unexpected {:?}", other),
    }
    assert!(matches!(&stmts[2].kind, StmtKind::FieldAssign { field, .. } if field == "age"));
    assert!(matches!(&stmts[3].kind, StmtKind::IndexAssign { .. }));
    assert!(matches!(&stmts[4].kind, StmtKind::Assign { target, ty: Some(_), .. } if target == "y"));
}

#[test]
fn invalid_assignment_target_is_an_error() {
    let errs = parse("1 = 2\n").unwrap_err();
    assert_eq!(errs.len(), 1);
    assert_eq!(errs[0].message, "invalid assignment target");
}

#[test]
fn control_flow_statements() {
    let src = "if a:\n    b\nelif c:\n    d\nelse:\n    e\nwhile x:\n    break\nfor i in 0..10 step 2:\n    continue\nfor k, v in m:\n    out(k)\n";
    let stmts = parse_ok(src);
    assert_eq!(stmts.len(), 4);
    match &stmts[0].kind {
        StmtKind::If { elifs, else_, .. } => {
            assert_eq!(elifs.len(), 1);
            assert!(else_.is_some());
        }
        other => panic!("unexpected {:?}", other),
    }
    assert!(matches!(&stmts[1].kind, StmtKind::While { .. }));
    assert!(matches!(&stmts[2].kind, StmtKind::For { step: Some(_), .. }));
    assert!(matches!(&stmts[3].kind, StmtKind::ForKV { .. }));
}

#[test]
fn step_in_key_value_loop_is_an_error() {
    let errs = parse("for k, v in m step 2:\n    out(k)\n").unwrap_err();
    assert_eq!(errs[0].message, "'step' is not supported in key-value for loops");
}

#[test]
fn functions_classes_and_loads() {
    let src = "cls User:\n    name str\n    age int\n\nfn describe(name str, age int) -> str:\n    return name\n\nload helper from \"./helper\"\nexport fn answer():\n    return 42\n";
    let stmts = parse_ok(src);
    assert_eq!(stmts.len(), 4);
    match &stmts[0].kind {
        StmtKind::ClsDef(c) => {
            assert_eq!(c.name, "User");
            assert_eq!(c.fields.len(), 2);
        }
        other => panic!("unexpected {:?}", other),
    }
    match &stmts[1].kind {
        StmtKind::FnDef(f) => {
            assert_eq!(f.name, "describe");
            assert_eq!(f.params.len(), 2);
            assert!(f.ret_ty.is_some());
            assert_eq!(f.body.len(), 1);
        }
        other => panic!("unexpected {:?}", other),
    }
    match &stmts[2].kind {
        StmtKind::Load { alias, source, .. } => {
            assert_eq!(alias, "helper");
            assert_eq!(source, "./helper");
        }
        other => panic!("unexpected {:?}", other),
    }
    assert!(matches!(&stmts[3].kind, StmtKind::Export(_)));
}

#[test]
fn errors_are_collected_and_parsing_resumes() {
    let tokens = Lexer::new("x = )\ny = 2\nz = ]\n").tokenize().unwrap();
    let (stmts, errs) = Parser::new(tokens).parse_partial();
    assert_eq!(errs.len(), 2);
    assert_eq!(stmts.len(), 1);
    assert!(matches!(&stmts[0].kind, StmtKind::Assign { target, .. } if target == "y"));
}

#[test]
fn empty_input_parses_to_nothing() {
    assert_eq!(parse_ok("").len(), 0);
    assert_eq!(parse_ok("\n\n").len(), 0);
    let stmts = Parser::new(Vec::new()).parse().unwrap();
    assert!(stmts.is_empty());
}

#[test]
fn precedence_levels_are_ordered() {
    assert!(Precedence::of(&Token::Star).level() > Precedence::of(&Token::Plus).level());
    assert!(Precedence::of(&Token::Plus).level() > Precedence::of(&Token::EqEq).level());
    assert_eq!(Precedence::of(&Token::Comma), Precedence::Lowest);
    assert_eq!(BinOp::from_token(&Token::Percent), Some(BinOp::Percent));
    assert_eq!(BinOp::from_token(&Token::Comma), None);
}

#[test]
fn ternary_and_propagate() {
    assert!(matches!(single_expr("a if c else b"), ExprKind::Ternary { .. }));
    assert!(matches!(single_expr("f()?"), ExprKind::Propagate(_)));
}

#[test]
fn lambda_expression() {
    let stmts = parse_ok("g = fn(x int) -> int = x\n");
    match &stmts[0].kind {
        StmtKind::Assign { value, .. } => {
            assert!(matches!(&value.kind, ExprKind::Lambda { params, .. } if params.len() == 1))
        }
        other => panic!("unexpected {:?}", other),
    }
}

#[test]
fn tokens_with_or_without_eof_parse_alike() {
    let mut tokens = Lexer::new("x = 1\n").tokenize().unwrap();
    let with_eof = Parser::new(tokens.clone()).parse().unwrap();
    tokens.pop();
    let without_eof = Parser::new(tokens).parse().unwrap();
    assert_eq!(format!("{:?}", with_eof), format!("{:?}", without_eof));
}

#[test]
fn readme_examples_parse() {
    let fib = "fn fib(n int) -> int:\n    if n <= 1:\n        return n\n    return fib(n - 1) + fib(n - 2)\n\nfor i in 0..10 step 2:\n    out(\"fib({i}) = {fib(i)}\")\n";
    assert_eq!(parse_ok(fib).len(), 2);
    let first_line = "load io\n\nfn first_line(path str) -> str | error:\n    lines = io.read_lines(path)?\n    if len(lines) == 0:\n        return error(\"empty file\")\n    return lines[0]\n\nout(first_line(\"data.txt\")?)\n";
    assert_eq!(parse_ok(first_line).len(), 3);
}

#[test]
fn second_partial_parse_finds_nothing() {
    let tokens = Lexer::new("x = )\ny = 2\n").tokenize().unwrap();
    let mut parser = Parser::new(tokens);
    let (stmts, errs) = parser.parse_partial();
    assert_eq!(stmts.len(), 1);
    assert_eq!(errs.len(), 1);
    let (stmts2, errs2) = parser.parse_partial();
    assert!(stmts2.is_empty());
    assert!(errs2.is_empty());
}
