use nimble::error::SemanticError;
use nimble::lexer::{Lexer, Span};
use nimble::parser::ast::Stmt;
use nimble::parser::Parser;
use nimble::types::infer::{Inferencer, TypeEnv};
use nimble::types::ty::Type;

fn parse_ok(src: &str) -> Vec<Stmt> {
    let tokens = Lexer::new(src).tokenize().expect("source should lex");
    Parser::new(tokens).parse().expect("source should parse")
}

fn check(src: &str) -> Result<(), SemanticError> {
    let stmts = parse_ok(src);
    Inferencer::new().infer_stmts(&stmts)
}

#[test]
fn check_accepts_documented_features() {
    let source = r#"
cls User:
    name str
    age int

fn describe(name str, age int):
    out("{name}:{age}")

load helper from "./helper"
user = User(age=30, name="Alice")
describe(age=7, name=helper.name())

for i in 0..10 step 2:
    out(i)
"#;
    let helper = r#"
export fn name():
    return "Bob"
"#;
    assert!(check(source).is_ok());
    assert!(check(helper).is_ok());
}

#[test]
fn named_args_and_step_loops_typecheck() {
    let source = r#"
cls User:
    name str
    age int

fn describe(name str, age int):
    out("{name}:{age}")

user = User(age=30, name="Alice")
describe(age=7, name="Bob")
for i in 0..10 step 3:
    out(i)
out(user.name)
out(user.age)
"#;
    assert!(check(source).is_ok());
}

#[test]
fn annotation_mismatch_is_reported() {
    let err = check("x str = 1\n").unwrap_err();
    match err {
        SemanticError::TypeMismatch { expected, found, expected_span, found_span, help } => {
            assert_eq!(expected, "str");
            assert_eq!(found, "int");
            assert_eq!(expected_span, Span::new(0, 1));
            assert_eq!(found_span, Span::new(8, 1));
            assert_eq!(
                help,
                Some("change the annotation or make the assigned value match it".to_string())
            );
        }
        other => panic!("unexpected {:?}", other),
    }
}

#[test]
fn undefined_variable_is_reported() {
    let err = check("y = z\n").unwrap_err();
    match err {
        SemanticError::UndefinedVariable { name, span } => {
            assert_eq!(name, "z");
            assert_eq!(span, Span::new(4, 1));
        }
        other => panic!("unexpected {:?}", other),
    }
}

#[test]
fn non_boolean_condition_is_reported() {
    let err = check("while 1:\n    x = 2\n").unwrap_err();
    match err {
        SemanticError::TypeMismatch { expected, found, .. } => {
            assert_eq!(expected, "bool");
            assert_eq!(found, "int");
        }
        other => panic!("unexpected {:?}", other),
    }
    assert!(check("while true:\n    x = 2\n").is_ok());
}

#[test]
fn assignments_bind_names_for_later_statements() {
    assert!(check("x = 1\ny = x\n").is_ok());
    assert!(check("y = x\nx = 1\n").is_err());
}

#[test]
fn type_text() {
    let t = Type::Fn(vec![Type::Int, Type::List(Box::new(Type::Str))], Box::new(Type::Bool));
    assert_eq!(t.to_text(), "fn(int, [str]) -> bool");
    let m = Type::Dict(Box::new(Type::Str), Box::new(Type::Int));
    assert_eq!(m.to_text(), "{str: int}");
    let u = Type::Union(vec![Type::Int, Type::Null]);
    assert_eq!(u.to_text(), "int | null");
    assert_eq!(Type::Error(Box::new(Type::Any)).to_text(), "error<any>");
    assert_eq!(Type::Struct("User".to_string()).to_text(), "User");
    assert_eq!(Type::Unknown.to_text(), "unknown");
}

#[test]
fn assignability() {
    assert!(Type::Int.is_assignable_to(&Type::Int));
    assert!(Type::Int.is_assignable_to(&Type::Any));
    assert!(!Type::Any.is_assignable_to(&Type::Str));
    assert!(Type::Int.is_assignable_to(&Type::Float));
    assert!(!Type::Float.is_assignable_to(&Type::Int));
    assert!(!Type::Int.is_assignable_to(&Type::Str));
    let opt = Type::Union(vec![Type::Int, Type::Null]);
    assert!(Type::Null.is_assignable_to(&opt));
    assert!(!Type::Str.is_assignable_to(&opt));
    assert!(Type::List(Box::new(Type::Int)).is_assignable_to(&Type::List(Box::new(Type::Int))));
}

#[test]
fn truthy_types() {
    assert!(Inferencer::is_truthy_type(&Type::Bool));
    assert!(Inferencer::is_truthy_type(&Type::Any));
    assert!(!Inferencer::is_truthy_type(&Type::Int));
    assert!(Inferencer::is_truthy_type(&Type::Union(vec![Type::Bool, Type::Unknown])));
    assert!(!Inferencer::is_truthy_type(&Type::Union(vec![Type::Bool, Type::Str])));
}

#[test]
fn list_item_types() {
    assert_eq!(Inferencer::list_item_type(&Type::List(Box::new(Type::Str))), Type::Str);
    assert_eq!(Inferencer::list_item_type(&Type::Int), Type::Any);
}

#[test]
fn scopes_see_their_parents() {
    let mut outer = TypeEnv::new();
    outer.set("a".to_string(), Type::Int);
    let mut inner = TypeEnv::extend(outer);
    inner.set("b".to_string(), Type::Str);
    assert_eq!(inner.get("a"), Some(Type::Int));
    assert_eq!(inner.get("b"), Some(Type::Str));
    assert_eq!(inner.get("c"), None);
    inner.set("a".to_string(), Type::Bool);
    assert_eq!(inner.get("a"), Some(Type::Bool));
}

#[test]
fn builtins_are_in_scope() {
    let mut env = TypeEnv::new();
    Inferencer::install_builtins(&mut env);
    assert!(env.get("out").is_some());
    assert!(check("out(1)\n").is_ok());
}

#[test]
fn readme_fib_typechecks() {
    let fib = "fn fib(n int) -> int:\n    if n <= 1:\n        return n\n    return fib(n - 1) + fib(n - 2)\n\nfor i in 0..10 step 2:\n    out(\"fib({i}) = {fib(i)}\")\n";
    assert!(check(fib).is_ok());
}
