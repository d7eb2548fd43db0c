//! The meaning of the parser, as spec functions over the token sequence.
//!
//! Every parsing function is given by a spec function of the tokens, the
//! position where it starts and the errors recorded so far; it returns how
//! many tokens it consumed, the errors recorded then, and its result. The
//! tokens always end with `Eof`, which is never consumed.

use vstd::prelude::*;
use crate::error::{PErr, perr_custom, perr_missing, perr_unexpected, lex_message};
use crate::lexer::token::{Span, SpecToken, TokenOf};
use crate::lexer::lexer::spec_tokenize;
use crate::parser::ast::{BinOp, UnaryOp, SExpr, SExprKind, SStmt, SStmtKind, SParam, SCallArg, SInterpPart, SFnDef, SClsDef};
use crate::types::ty::SpecType;

verus! {

pub type PTokens = Seq<(SpecToken, Span)>;

// ── Looking at tokens ──────────────────────────────────────────────────────

/// The index of the token at position `p`, the last one past the end.
pub open spec fn clamp(ts: PTokens, p: int) -> int {
    if p < ts.len() {
        p
    } else {
        ts.len() - 1
    }
}

pub open spec fn tok_at(ts: PTokens, p: int) -> SpecToken {
    ts[clamp(ts, p)].0
}

pub open spec fn span_at(ts: PTokens, p: int) -> Span {
    ts[clamp(ts, p)].1
}

pub open spec fn at_end(ts: PTokens, p: int) -> bool {
    tok_at(ts, p) is Eof
}

/// How many tokens `advance` consumes at `p`: none at the end.
pub open spec fn step(ts: PTokens, p: int) -> nat {
    if at_end(ts, p) {
        0
    } else {
        1
    }
}

/// The span of the token before position `p` (of the first token at 0).
pub open spec fn prev_span(ts: PTokens, p: int) -> Span {
    if p == 0 {
        span_at(ts, p)
    } else {
        span_at(ts, p - 1)
    }
}

/// The token at `p` is `t`, and the input is not over.
pub open spec fn check(ts: PTokens, p: int, t: SpecToken) -> bool {
    !at_end(ts, p) && tok_at(ts, p) == t
}

/// What remains of the input from `p`: the measure of the parser's progress.
pub open spec fn rem(ts: PTokens, p: int) -> int {
    if p < ts.len() {
        ts.len() - p
    } else {
        0
    }
}

/// The tokens as the parser holds them: with an `Eof` appended, at the span of
/// the last token, unless they already end with one.
pub open spec fn with_eof(ts: PTokens) -> PTokens {
    if ts.len() > 0 && ts.last().0 is Eof {
        ts
    } else {
        let span = if ts.len() > 0 { ts.last().1 } else { Span { start: 0, len: 0 } };
        ts.push((TokenOf::Eof, span))
    }
}

// ── Token names in messages ────────────────────────────────────────────────

/// The name of a token's variant.
pub open spec fn variant_name(t: SpecToken) -> Seq<char> {
    match t {
        TokenOf::Int(_) => "Int"@,
        TokenOf::Float(_) => "Float"@,
        TokenOf::Str(_) => "Str"@,
        TokenOf::Bool(_) => "Bool"@,
        TokenOf::Null => "Null"@,
        TokenOf::Ident(_) => "Ident"@,
        TokenOf::Fn => "Fn"@,
        TokenOf::Cls => "Cls"@,
        TokenOf::Load => "Load"@,
        TokenOf::From => "From"@,
        TokenOf::As => "As"@,
        TokenOf::Export => "Export"@,
        TokenOf::Return => "Return"@,
        TokenOf::If => "If"@,
        TokenOf::Elif => "Elif"@,
        TokenOf::Else => "Else"@,
        TokenOf::For => "For"@,
        TokenOf::While => "While"@,
        TokenOf::In => "In"@,
        TokenOf::Break => "Break"@,
        TokenOf::Continue => "Continue"@,
        TokenOf::Spawn => "Spawn"@,
        TokenOf::Error => "Error"@,
        TokenOf::Step => "Step"@,
        TokenOf::Plus => "Plus"@,
        TokenOf::Minus => "Minus"@,
        TokenOf::Star => "Star"@,
        TokenOf::Slash => "Slash"@,
        TokenOf::Percent => "Percent"@,
        TokenOf::Assign => "Assign"@,
        TokenOf::EqEq => "EqEq"@,
        TokenOf::BangEq => "BangEq"@,
        TokenOf::Lt => "Lt"@,
        TokenOf::Gt => "Gt"@,
        TokenOf::LtEq => "LtEq"@,
        TokenOf::GtEq => "GtEq"@,
        TokenOf::And => "And"@,
        TokenOf::Or => "Or"@,
        TokenOf::Not => "Not"@,
        TokenOf::Arrow => "Arrow"@,
        TokenOf::Question => "Question"@,
        TokenOf::DotDot => "DotDot"@,
        TokenOf::Dot => "Dot"@,
        TokenOf::Pipe => "Pipe"@,
        TokenOf::PlusEq => "PlusEq"@,
        TokenOf::MinusEq => "MinusEq"@,
        TokenOf::StarEq => "StarEq"@,
        TokenOf::SlashEq => "SlashEq"@,
        TokenOf::Indent => "Indent"@,
        TokenOf::Dedent => "Dedent"@,
        TokenOf::Newline => "Newline"@,
        TokenOf::Colon => "Colon"@,
        TokenOf::Comma => "Comma"@,
        TokenOf::LParen => "LParen"@,
        TokenOf::RParen => "RParen"@,
        TokenOf::LBrace => "LBrace"@,
        TokenOf::RBrace => "RBrace"@,
        TokenOf::LBracket => "LBracket"@,
        TokenOf::RBracket => "RBracket"@,
        TokenOf::InterpStart => "InterpStart"@,
        TokenOf::InterpEnd => "InterpEnd"@,
        TokenOf::Eof => "Eof"@,
    }
}

/// The closing delimiter that a token is, if it is one.
pub open spec fn delimiter_name(t: SpecToken) -> Option<Seq<char>> {
    match t {
        TokenOf::RParen => Some(")"@),
        TokenOf::RBracket => Some("]"@),
        TokenOf::RBrace => Some("}"@),
        TokenOf::Colon => Some(":"@),
        TokenOf::Newline => Some("newline"@),
        _ => None,
    }
}

/// How an expected token is named in messages.
pub open spec fn expected_name(t: SpecToken) -> Seq<char> {
    match t {
        TokenOf::Indent => "an indented block"@,
        TokenOf::Dedent => "a dedent"@,
        TokenOf::LParen => "`(`"@,
        TokenOf::RParen => "`)`"@,
        TokenOf::LBracket => "`[`"@,
        TokenOf::RBracket => "`]`"@,
        TokenOf::LBrace => "`{`"@,
        TokenOf::RBrace => "`}`"@,
        TokenOf::Colon => "`:`"@,
        TokenOf::Comma => "`,`"@,
        TokenOf::Arrow => "`->`"@,
        TokenOf::Assign => "`=`"@,
        TokenOf::Newline => "a newline"@,
        TokenOf::In => "`in`"@,
        TokenOf::Else => "`else`"@,
        _ => variant_name(t),
    }
}

/// How a token that was found is named in messages.
pub open spec fn actual_name(t: SpecToken) -> Seq<char> {
    match t {
        TokenOf::Ident(_) => "an identifier"@,
        TokenOf::Str(_) => "a string literal"@,
        TokenOf::Int(_) => "an integer literal"@,
        TokenOf::Float(_) => "a float literal"@,
        TokenOf::Bool(_) => "a boolean literal"@,
        TokenOf::Eof => "the end of input"@,
        _ => expected_name(t),
    }
}

// ── Consuming tokens ───────────────────────────────────────────────────────

/// `consume`: the token `t` and its span, or an error (consuming nothing).
pub open spec fn sp_consume(ts: PTokens, p: int, t: SpecToken, ctx: Seq<char>) -> (nat, Result<Span, PErr>) {
    if check(ts, p, t) {
        (1, Ok(span_at(ts, p)))
    } else {
        match delimiter_name(t) {
            Some(d) => {
                let at = if tok_at(ts, p) is Eof {
                    Span { start: prev_span(ts, p).sat_end() as usize, len: 0 }
                } else {
                    Span { start: span_at(ts, p).start, len: 0 }
                };
                (0, Err(perr_missing(d, at, ctx)))
            },
            None => (0, Err(perr_unexpected(expected_name(t), actual_name(tok_at(ts, p)), span_at(ts, p)))),
        }
    }
}

/// `consume_ident`: an identifier and its span.
pub open spec fn sp_ident(ts: PTokens, p: int, ctx: Seq<char>) -> (nat, Result<(Seq<char>, Span), PErr>) {
    match tok_at(ts, p) {
        TokenOf::Ident(name) => (1, Ok((name, span_at(ts, p)))),
        _ => (0, Err(perr_unexpected("an identifier ("@ + ctx + ")"@, actual_name(tok_at(ts, p)), span_at(ts, p)))),
    }
}

/// `consume_str_literal`: a string literal and its span.
pub open spec fn sp_str_lit(ts: PTokens, p: int, ctx: Seq<char>) -> (nat, Result<(Seq<char>, Span), PErr>) {
    match tok_at(ts, p) {
        TokenOf::Str(s) => (1, Ok((s, span_at(ts, p)))),
        _ => (0, Err(perr_unexpected("a string literal ("@ + ctx + ")"@, actual_name(tok_at(ts, p)), span_at(ts, p)))),
    }
}

/// The end of a statement: a newline, or nothing before a dedent or the end.
pub open spec fn sp_stmt_end(ts: PTokens, p: int, ctx: Seq<char>) -> (nat, Result<(), PErr>) {
    if at_end(ts, p) || check(ts, p, TokenOf::Dedent) {
        (0, Ok(()))
    } else {
        let (a, r) = sp_consume(ts, p, TokenOf::Newline, "expected newline "@ + ctx);
        match r {
            Ok(_) => (a, Ok(())),
            Err(x) => (a, Err(x)),
        }
    }
}

/// How many newlines follow `p`.
pub open spec fn sp_newlines(ts: PTokens, p: int) -> nat
    decreases rem(ts, p),
{
    if check(ts, p, TokenOf::Newline) && p < ts.len() {
        1 + sp_newlines(ts, p + 1)
    } else {
        0
    }
}

/// Whether a token starts a statement, so that error recovery stops before it.
pub open spec fn starts_statement(t: SpecToken) -> bool {
    t is Fn || t is Cls || t is If || t is While || t is For || t is Return || t is Load || t is Export
}

/// Error recovery: how many tokens to skip to reach a statement boundary (a
/// consumed newline, a dedent, or a statement keyword).
pub open spec fn sp_sync(ts: PTokens, p: int) -> nat
    decreases rem(ts, p),
{
    if at_end(ts, p) || p >= ts.len() {
        0
    } else if tok_at(ts, p) is Newline {
        1
    } else if tok_at(ts, p) is Dedent || starts_statement(tok_at(ts, p)) {
        0
    } else {
        1 + sp_sync(ts, p + 1)
    }
}

// ── Operators ──────────────────────────────────────────────────────────────

/// Binding strength of an infix position, as a number (weakest first).
pub open spec fn prec_level(t: SpecToken) -> nat {
    match t {
        TokenOf::Or => 1,
        TokenOf::And => 2,
        TokenOf::EqEq => 3,
        TokenOf::BangEq => 3,
        TokenOf::Lt => 4,
        TokenOf::Gt => 4,
        TokenOf::LtEq => 4,
        TokenOf::GtEq => 4,
        TokenOf::DotDot => 5,
        TokenOf::Plus => 6,
        TokenOf::Minus => 6,
        TokenOf::Star => 7,
        TokenOf::Slash => 7,
        TokenOf::Percent => 7,
        TokenOf::LParen => 9,
        TokenOf::Dot => 10,
        TokenOf::LBracket => 10,
        TokenOf::Question => 11,
        _ => 0,
    }
}

/// The level of prefix operators.
pub open spec fn prefix_level() -> nat {
    8
}

pub open spec fn binop_of(t: SpecToken) -> Option<BinOp> {
    match t {
        TokenOf::Plus => Some(BinOp::Plus),
        TokenOf::Minus => Some(BinOp::Minus),
        TokenOf::Star => Some(BinOp::Star),
        TokenOf::Slash => Some(BinOp::Slash),
        TokenOf::Percent => Some(BinOp::Percent),
        TokenOf::EqEq => Some(BinOp::EqEq),
        TokenOf::BangEq => Some(BinOp::BangEq),
        TokenOf::Lt => Some(BinOp::Lt),
        TokenOf::Gt => Some(BinOp::Gt),
        TokenOf::LtEq => Some(BinOp::LtEq),
        TokenOf::GtEq => Some(BinOp::GtEq),
        TokenOf::And => Some(BinOp::And),
        TokenOf::Or => Some(BinOp::Or),
        TokenOf::DotDot => Some(BinOp::DotDot),
        _ => None,
    }
}

// ── Types ──────────────────────────────────────────────────────────────────

pub open spec fn type_start(t: SpecToken) -> bool {
    t is Ident || t is LBracket || t is LBrace || t is Error
}

/// The type named by an identifier.
pub open spec fn named_type(name: Seq<char>) -> SpecType {
    if name == "int"@ {
        SpecType::Int
    } else if name == "float"@ {
        SpecType::Float
    } else if name == "str"@ {
        SpecType::Str
    } else if name == "bool"@ {
        SpecType::Bool
    } else if name == "null"@ {
        SpecType::Null
    } else if name == "any"@ {
        SpecType::Any
    } else {
        SpecType::Struct(name)
    }
}

/// `parse_type`: one type, or a union of types separated by `|`.
pub open spec fn sp_type(ts: PTokens, p: int) -> (nat, Result<SpecType, PErr>)
    decreases rem(ts, p), 2nat,
{
    let (a, r) = sp_type_primary(ts, p);
    match r {
        Err(x) => (a, Err(x)),
        Ok(t) => {
            let (b, r2) = sp_type_rest(ts, p + a, seq![t]);
            match r2 {
                Err(x) => (a + b, Err(x)),
                Ok(tys) => (a + b, Ok(if tys.len() == 1 { tys[0] } else { SpecType::Union(tys) })),
            }
        },
    }
}

/// The alternatives after the first one of a union type.
pub open spec fn sp_type_rest(ts: PTokens, p: int, acc: Seq<SpecType>) -> (nat, Result<Seq<SpecType>, PErr>)
    decreases rem(ts, p), 1nat,
{
    if check(ts, p, TokenOf::Pipe) && p < ts.len() {
        let (a, r) = sp_type_primary(ts, p + 1);
        match r {
            Err(x) => (1 + a, Err(x)),
            Ok(t) => {
                let (b, r2) = sp_type_rest(ts, p + 1 + a, acc.push(t));
                (1 + a + b, r2)
            },
        }
    } else {
        (0, Ok(acc))
    }
}

/// `parse_type_primary`: a list type, a map type, or a named type.
pub open spec fn sp_type_primary(ts: PTokens, p: int) -> (nat, Result<SpecType, PErr>)
    decreases rem(ts, p), 0nat,
{
    let span = span_at(ts, p);
    if check(ts, p, TokenOf::LBracket) && p < ts.len() {
        let (a, r) = sp_type(ts, p + 1);
        match r {
            Err(x) => (1 + a, Err(x)),
            Ok(inner) => {
                let (b, r2) = sp_consume(ts, p + 1 + a, TokenOf::RBracket, "expected ']' in list type"@);
                match r2 {
                    Err(x) => (1 + a + b, Err(x)),
                    Ok(_) => (1 + a + b, Ok(SpecType::List(Box::new(inner)))),
                }
            },
        }
    } else if check(ts, p, TokenOf::LBrace) && p < ts.len() {
        let (a, r) = sp_type(ts, p + 1);
        match r {
            Err(x) => (1 + a, Err(x)),
            Ok(key) => {
                let q = p + 1 + a;
                let (b, r2) = sp_consume(ts, q, TokenOf::Colon, "expected ':' in map type"@);
                match r2 {
                    Err(x) => (1 + a + b, Err(x)),
                    Ok(_) => {
                        let (c, r3) = sp_type(ts, q + b);
                        match r3 {
                            Err(x) => (1 + a + b + c, Err(x)),
                            Ok(val) => {
                                let (d, r4) = sp_consume(ts, q + b + c, TokenOf::RBrace, "expected '}' in map type"@);
                                match r4 {
                                    Err(x) => (1 + a + b + c + d, Err(x)),
                                    Ok(_) => (1 + a + b + c + d, Ok(SpecType::Dict(Box::new(key), Box::new(val)))),
                                }
                            },
                        }
                    },
                }
            },
        }
    } else {
        match tok_at(ts, p) {
            TokenOf::Error => (step(ts, p), Ok(SpecType::Error(Box::new(SpecType::Any)))),
            TokenOf::Ident(name) => (step(ts, p), Ok(named_type(name))),
            TokenOf::Null => (step(ts, p), Ok(SpecType::Null)),
            other => (step(ts, p), Err(perr_unexpected("a type annotation"@, actual_name(other), span))),
        }
    }
}

/// `try_parse_type`: a type if one starts here and parses, else nothing and no token consumed.
pub open spec fn sp_try_type(ts: PTokens, p: int) -> (nat, Option<SpecType>) {
    if !type_start(tok_at(ts, p)) {
        (0, None)
    } else {
        let (a, r) = sp_type(ts, p);
        match r {
            Ok(t) => (a, Some(t)),
            Err(_) => (0, None),
        }
    }
}

// ── Statements that do not contain expressions ─────────────────────────────

/// `parse_param_list`: parameters, each a name and an optional type, separated by commas.
#[verifier::opaque]
pub open spec fn sp_params(ts: PTokens, p: int, acc: Seq<SParam>) -> (nat, Result<Seq<SParam>, PErr>)
    decreases rem(ts, p),
{
    if check(ts, p, TokenOf::RParen) || at_end(ts, p) || p >= ts.len() {
        (0, Ok(acc))
    } else {
        let (a, r) = sp_ident(ts, p, "expected parameter name"@);
        match r {
            Err(x) => (a, Err(x)),
            Ok((name, span)) => {
                let q = p + a;
                let (b, ty) = sp_try_type(ts, q);
                let acc2 = acc.push(SParam { name, ty, span, ty_span: None });
                let q2 = q + b;
                if check(ts, q2, TokenOf::Comma) {
                    let (c, r2) = sp_params(ts, q2 + 1, acc2);
                    (a + b + 1 + c, r2)
                } else {
                    (a + b, Ok(acc2))
                }
            },
        }
    }
}

/// `parse_ret_ty`: the type after `->`, if there is an arrow.
pub open spec fn sp_ret_ty(ts: PTokens, p: int) -> (nat, Result<Option<SpecType>, PErr>) {
    if check(ts, p, TokenOf::Arrow) {
        let (a, r) = sp_type(ts, p + 1);
        match r {
            Err(x) => (1 + a, Err(x)),
            Ok(t) => (1 + a, Ok(Some(t))),
        }
    } else {
        (0, Ok(None))
    }
}

/// The fields of a class body, up to its dedent.
#[verifier::opaque]
pub open spec fn sp_fields(ts: PTokens, p: int, acc: Seq<SParam>) -> (nat, Result<Seq<SParam>, PErr>)
    decreases rem(ts, p),
{
    if check(ts, p, TokenOf::Dedent) || at_end(ts, p) || p >= ts.len() {
        (0, Ok(acc))
    } else if check(ts, p, TokenOf::Newline) {
        let (a, r) = sp_fields(ts, p + 1, acc);
        (1 + a, r)
    } else {
        let (a, r) = sp_ident(ts, p, "expected field name"@);
        match r {
            Err(x) => (a, Err(x)),
            Ok((name, span)) => {
                let q = p + a;
                let (b, ty) = sp_try_type(ts, q);
                match ty {
                    None => (a + b, Err(perr_custom("field '"@ + name + "' requires a type annotation"@, span_at(ts, q + b)))),
                    Some(t) => {
                        let acc2 = acc.push(SParam { name, ty: Some(t), span, ty_span: None });
                        let q2 = q + b;
                        if !check(ts, q2, TokenOf::Dedent) {
                            let (c, r2) = sp_stmt_end(ts, q2, "after class field"@);
                            match r2 {
                                Err(x) => (a + b + c, Err(x)),
                                Ok(_) => {
                                    let (d, r3) = sp_fields(ts, q2 + c, acc2);
                                    (a + b + c + d, r3)
                                },
                            }
                        } else {
                            let (d, r3) = sp_fields(ts, q2, acc2);
                            (a + b + d, r3)
                        }
                    },
                }
            },
        }
    }
}

/// `parse_cls_def`, after `cls`: a name, a colon, and an indented block of typed fields.
#[verifier::opaque]
pub open spec fn sp_cls_def(ts: PTokens, p: int) -> (nat, Result<SStmt, PErr>) {
    let cls_span = prev_span(ts, p);
    let (a, r) = sp_ident(ts, p, "expected class name"@);
    match r {
        Err(x) => (a, Err(x)),
        Ok((name, name_span)) => {
            let q = p + a;
            let (b, r2) = sp_consume(ts, q, TokenOf::Colon, "expected ':' after class name"@);
            match r2 {
                Err(x) => (a + b, Err(x)),
                Ok(_) => {
                    let q2 = q + b;
                    let n = sp_newlines(ts, q2);
                    let q3 = q2 + n;
                    let (c, r3) = sp_consume(ts, q3, TokenOf::Indent, "expected indented block for class body"@);
                    match r3 {
                        Err(x) => (a + b + n + c, Err(x)),
                        Ok(_) => {
                            let q4 = q3 + c;
                            let (d, r4) = sp_fields(ts, q4, seq![]);
                            match r4 {
                                Err(x) => (a + b + n + c + d, Err(x)),
                                Ok(fields) => {
                                    let q5 = q4 + d;
                                    let (f, r5) = sp_consume(ts, q5, TokenOf::Dedent, "expected dedent after class body"@);
                                    match r5 {
                                        Err(x) => (a + b + n + c + d + f, Err(x)),
                                        Ok(_) => {
                                            let end_span = if fields.len() > 0 { fields.last().span } else { name_span };
                                            (a + b + n + c + d + f, Ok(SStmt {
                                                kind: SStmtKind::ClsDef(SClsDef { name, name_span, fields }),
                                                span: cls_span.spec_cover(end_span),
                                            }))
                                        },
                                    }
                                },
                            }
                        },
                    }
                },
            }
        },
    }
}

/// `parse_load`, after `load`: a module name, optionally `from` and a source string.
#[verifier::opaque]
pub open spec fn sp_load(ts: PTokens, p: int) -> (nat, Result<SStmt, PErr>) {
    let load_span = prev_span(ts, p);
    let (a, r) = sp_ident(ts, p, "expected module name in load"@);
    match r {
        Err(x) => (a, Err(x)),
        Ok((alias, alias_span)) => {
            let q = p + a;
            let (b, r2) = if check(ts, q, TokenOf::From) {
                let (c, r3) = sp_str_lit(ts, q + 1, "expected source string after 'from'"@);
                match r3 {
                    Err(x) => (1 + c, Err(x)),
                    Ok((source, span)) => (1 + c, Ok((source, Some(span)))),
                }
            } else {
                (0nat, Ok((alias, None)))
            };
            match r2 {
                Err(x) => (a + b, Err(x)),
                Ok((source, source_span)) => {
                    let (c, r3) = sp_stmt_end(ts, q + b, "after load"@);
                    match r3 {
                        Err(x) => (a + b + c, Err(x)),
                        Ok(_) => {
                            let end_span = match source_span {
                                Some(s) => s,
                                None => alias_span,
                            };
                            (a + b + c, Ok(SStmt {
                                kind: SStmtKind::Load { alias, alias_span, source, source_span },
                                span: load_span.spec_cover(end_span),
                            }))
                        },
                    }
                },
            }
        },
    }
}

// ── Interpolation ──────────────────────────────────────────────────────────

/// The source of an interpolation that starts at `k`, up to its closing `}`
/// (braces nest, and quoted strings are skipped with their escapes), and the
/// position after that brace; `None` when the text ends first.
pub open spec fn scan_interp(raw: Seq<char>, k: int, out: Seq<char>, depth: nat, in_str: Option<char>) -> Option<(Seq<char>, int)>
    decreases raw.len() - k,
{
    if k < 0 || k >= raw.len() {
        None
    } else {
        let c = raw[k];
        match in_str {
            Some(q) => if c == '\\' {
                if k + 1 < raw.len() {
                    scan_interp(raw, k + 2, out.push(c).push(raw[k + 1]), depth, in_str)
                } else {
                    scan_interp(raw, k + 1, out.push(c), depth, in_str)
                }
            } else if c == q {
                scan_interp(raw, k + 1, out.push(c), depth, None)
            } else {
                scan_interp(raw, k + 1, out.push(c), depth, in_str)
            },
            None => if c == '"' || c == '\'' {
                scan_interp(raw, k + 1, out.push(c), depth, Some(c))
            } else if c == '{' {
                scan_interp(raw, k + 1, out.push(c), depth + 1, None)
            } else if c == '}' && depth > 0 {
                scan_interp(raw, k + 1, out.push(c), (depth - 1) as nat, None)
            } else if c == '}' {
                Some((out, k + 1))
            } else {
                scan_interp(raw, k + 1, out.push(c), depth, None)
            },
        }
    }
}

pub proof fn lemma_scan_interp(raw: Seq<char>, k: int, out: Seq<char>, depth: nat, in_str: Option<char>)
    ensures
        scan_interp(raw, k, out, depth, in_str) matches Some((_, j)) ==> k < j <= raw.len(),
    decreases raw.len() - k,
{
    if 0 <= k < raw.len() {
        let c = raw[k];
        match in_str {
            Some(q) => if c == '\\' {
                if k + 1 < raw.len() {
                    lemma_scan_interp(raw, k + 2, out.push(c).push(raw[k + 1]), depth, in_str);
                } else {
                    lemma_scan_interp(raw, k + 1, out.push(c), depth, in_str);
                }
            } else if c == q {
                lemma_scan_interp(raw, k + 1, out.push(c), depth, None);
            } else {
                lemma_scan_interp(raw, k + 1, out.push(c), depth, in_str);
            },
            None => if c == '"' || c == '\'' {
                lemma_scan_interp(raw, k + 1, out.push(c), depth, Some(c));
            } else if c == '{' {
                lemma_scan_interp(raw, k + 1, out.push(c), depth + 1, None);
            } else if c == '}' && depth > 0 {
                lemma_scan_interp(raw, k + 1, out.push(c), (depth - 1) as nat, None);
            } else if c == '}' {
            } else {
                lemma_scan_interp(raw, k + 1, out.push(c), depth, None);
            },
        }
    }
}

// ── Rewriting spans ────────────────────────────────────────────────────────

/// `e` with every span in it replaced by `sp`.
pub open spec fn respan_expr(e: SExpr, sp: Span) -> SExpr
    decreases e,
{
    SExpr {
        kind: match e.kind {
            SExprKind::BinOp { op, left, right } => SExprKind::BinOp {
                op,
                left: Box::new(respan_expr(*left, sp)),
                right: Box::new(respan_expr(*right, sp)),
            },
            SExprKind::UnaryOp { op, expr } => SExprKind::UnaryOp { op, expr: Box::new(respan_expr(*expr, sp)) },
            SExprKind::Call { callee, args } => SExprKind::Call {
                callee: Box::new(respan_expr(*callee, sp)),
                args: respan_args(args, sp),
            },
            SExprKind::Index { obj, idx } => SExprKind::Index {
                obj: Box::new(respan_expr(*obj, sp)),
                idx: Box::new(respan_expr(*idx, sp)),
            },
            SExprKind::Field { obj, field, .. } => SExprKind::Field {
                obj: Box::new(respan_expr(*obj, sp)),
                field,
                field_span: sp,
            },
            SExprKind::List(items) => SExprKind::List(respan_exprs(items, sp)),
            SExprKind::Dict(pairs) => SExprKind::Dict(respan_pairs(pairs, sp)),
            SExprKind::Lambda { params, ret_ty, ret_ty_span, body } => SExprKind::Lambda {
                params: respan_params(params, sp),
                ret_ty,
                ret_ty_span,
                body: respan_stmts(body, sp),
            },
            SExprKind::Interp(parts) => SExprKind::Interp(respan_parts(parts, sp)),
            SExprKind::Ternary { cond, then, else_ } => SExprKind::Ternary {
                cond: Box::new(respan_expr(*cond, sp)),
                then: Box::new(respan_expr(*then, sp)),
                else_: Box::new(respan_expr(*else_, sp)),
            },
            SExprKind::Propagate(inner) => SExprKind::Propagate(Box::new(respan_expr(*inner, sp))),
            SExprKind::Spawn(inner) => SExprKind::Spawn(Box::new(respan_expr(*inner, sp))),
            other => other,
        },
        span: sp,
    }
}

pub open spec fn respan_exprs(es: Seq<SExpr>, sp: Span) -> Seq<SExpr>
    decreases es,
{
    if es.len() == 0 {
        es
    } else {
        respan_exprs(es.drop_last(), sp).push(respan_expr(es.last(), sp))
    }
}

pub open spec fn respan_pairs(ps: Seq<(SExpr, SExpr)>, sp: Span) -> Seq<(SExpr, SExpr)>
    decreases ps,
{
    if ps.len() == 0 {
        ps
    } else {
        respan_pairs(ps.drop_last(), sp).push((respan_expr(ps.last().0, sp), respan_expr(ps.last().1, sp)))
    }
}

pub open spec fn respan_args(args: Seq<SCallArg>, sp: Span) -> Seq<SCallArg>
    decreases args,
{
    if args.len() == 0 {
        args
    } else {
        respan_args(args.drop_last(), sp).push(SCallArg { name: args.last().name, expr: respan_expr(args.last().expr, sp) })
    }
}

pub open spec fn respan_parts(parts: Seq<SInterpPart>, sp: Span) -> Seq<SInterpPart>
    decreases parts,
{
    if parts.len() == 0 {
        parts
    } else {
        respan_parts(parts.drop_last(), sp).push(match parts.last() {
            SInterpPart::Expr(e) => SInterpPart::Expr(respan_expr(e, sp)),
            other => other,
        })
    }
}

/// A parameter whose name span, and type span if it has a type, become `sp`.
pub open spec fn respan_param(p: SParam, sp: Span) -> SParam {
    SParam { span: sp, ty_span: if p.ty is Some { Some(sp) } else { p.ty_span }, ..p }
}

pub open spec fn respan_params(ps: Seq<SParam>, sp: Span) -> Seq<SParam> {
    ps.map_values(|p: SParam| respan_param(p, sp))
}

/// `s` with every span in it replaced by `sp`.
pub open spec fn respan_stmt(s: SStmt, sp: Span) -> SStmt
    decreases s,
{
    SStmt {
        kind: match s.kind {
            SStmtKind::Assign { target, ty, ty_span, value, .. } => SStmtKind::Assign {
                target,
                target_span: sp,
                ty,
                ty_span: if ty is Some { Some(sp) } else { ty_span },
                value: respan_expr(value, sp),
            },
            SStmtKind::FieldAssign { obj, field, value, .. } => SStmtKind::FieldAssign {
                obj: respan_expr(obj, sp),
                field,
                field_span: sp,
                value: respan_expr(value, sp),
            },
            SStmtKind::IndexAssign { obj, idx, value } => SStmtKind::IndexAssign {
                obj: respan_expr(obj, sp),
                idx: respan_expr(idx, sp),
                value: respan_expr(value, sp),
            },
            SStmtKind::Return(e) => SStmtKind::Return(match e {
                Some(e) => Some(respan_expr(e, sp)),
                None => None,
            }),
            SStmtKind::If { cond, then, elifs, else_ } => SStmtKind::If {
                cond: respan_expr(cond, sp),
                then: respan_stmts(then, sp),
                elifs: respan_elifs(elifs, sp),
                else_: match else_ {
                    Some(b) => Some(respan_stmts(b, sp)),
                    None => None,
                },
            },
            SStmtKind::For { var, iter, step, body, .. } => SStmtKind::For {
                var,
                var_span: sp,
                iter: respan_expr(iter, sp),
                step: match step {
                    Some(e) => Some(respan_expr(e, sp)),
                    None => None,
                },
                body: respan_stmts(body, sp),
            },
            SStmtKind::ForKV { key, val, iter, body, .. } => SStmtKind::ForKV {
                key,
                key_span: sp,
                val,
                val_span: sp,
                iter: respan_expr(iter, sp),
                body: respan_stmts(body, sp),
            },
            SStmtKind::While { cond, body } => SStmtKind::While {
                cond: respan_expr(cond, sp),
                body: respan_stmts(body, sp),
            },
            SStmtKind::Expr(e) => SStmtKind::Expr(respan_expr(e, sp)),
            SStmtKind::Load { alias, source, source_span, .. } => SStmtKind::Load {
                alias,
                alias_span: sp,
                source,
                source_span: if source_span is Some { Some(sp) } else { source_span },
            },
            SStmtKind::FnDef(f) => SStmtKind::FnDef(SFnDef {
                name: f.name,
                name_span: sp,
                params: respan_params(f.params, sp),
                ret_ty: f.ret_ty,
                ret_ty_span: if f.ret_ty is Some { Some(sp) } else { f.ret_ty_span },
                body: respan_stmts(f.body, sp),
            }),
            SStmtKind::ClsDef(c) => SStmtKind::ClsDef(SClsDef {
                name: c.name,
                name_span: sp,
                fields: respan_params(c.fields, sp),
            }),
            SStmtKind::Export(inner) => SStmtKind::Export(Box::new(respan_stmt(*inner, sp))),
            other => other,
        },
        span: sp,
    }
}

pub open spec fn respan_stmts(ss: Seq<SStmt>, sp: Span) -> Seq<SStmt>
    decreases ss,
{
    if ss.len() == 0 {
        ss
    } else {
        respan_stmts(ss.drop_last(), sp).push(respan_stmt(ss.last(), sp))
    }
}

pub open spec fn respan_elifs(es: Seq<(SExpr, Seq<SStmt>)>, sp: Span) -> Seq<(SExpr, Seq<SStmt>)>
    decreases es,
{
    if es.len() == 0 {
        es
    } else {
        respan_elifs(es.drop_last(), sp).push((respan_expr(es.last().0, sp), respan_stmts(es.last().1, sp)))
    }
}

// ── The recursive core ─────────────────────────────────────────────────────
//
// Each function returns the number of tokens it consumed, the errors recorded
// so far, and its result. `lim` bounds the length of the text of any nested
// interpolation parsed from here.

pub open spec fn stmt_ok(s: SStmt) -> Result<SStmt, PErr> {
    Ok(s)
}

/// The statement for `target = value`, when `target` can be assigned to.
pub open spec fn assign_target(target: SExpr, value: SExpr) -> Result<SStmt, PErr> {
    let span = target.span.spec_cover(value.span);
    match target.kind {
        SExprKind::Ident(name) => Ok(SStmt {
            kind: SStmtKind::Assign { target: name, target_span: target.span, ty: None, ty_span: None, value },
            span,
        }),
        SExprKind::Field { obj, field, field_span } => Ok(SStmt {
            kind: SStmtKind::FieldAssign { obj: *obj, field, field_span, value },
            span,
        }),
        SExprKind::Index { obj, idx } => Ok(SStmt {
            kind: SStmtKind::IndexAssign { obj: *obj, idx: *idx, value },
            span,
        }),
        _ => Err(perr_custom("invalid assignment target"@, target.span)),
    }
}

/// The compound operator of an assignment token: `Some(None)` for `=`.
pub open spec fn assign_op(t: SpecToken) -> Option<Option<BinOp>> {
    match t {
        TokenOf::Assign => Some(None),
        TokenOf::PlusEq => Some(Some(BinOp::Plus)),
        TokenOf::MinusEq => Some(Some(BinOp::Minus)),
        TokenOf::StarEq => Some(Some(BinOp::Star)),
        TokenOf::SlashEq => Some(Some(BinOp::Slash)),
        _ => None,
    }
}

/// The token `n` places after `p`, or `Eof` past the end.
pub open spec fn nth_tok(ts: PTokens, p: int, n: int) -> SpecToken {
    if 0 <= p + n < ts.len() {
        ts[p + n].0
    } else {
        TokenOf::Eof
    }
}

/// The span that ends a construct: that of the last statement of its block, or `default`.
pub open spec fn last_stmt_span(body: Seq<SStmt>, default: Span) -> Span {
    if body.len() > 0 {
        body.last().span
    } else {
        default
    }
}

/// `parse_statement`.
#[verifier::opaque]
pub open spec fn sp_stmt(ts: PTokens, lim: nat, p: int, es: Seq<PErr>) -> (nat, Seq<PErr>, Result<SStmt, PErr>)
    decreases lim, rem(ts, p), 40nat, 0int when 0 <= p < ts.len()
{
    if check(ts, p, TokenOf::Export) {
        let export_span = prev_span(ts, p + 1);
        let (a, e, r) = sp_stmt(ts, lim, p + 1, es);
        (1 + a, e, match r {
            Err(x) => Err(x),
            Ok(inner) => Ok(SStmt {
                kind: SStmtKind::Export(Box::new(inner)),
                span: export_span.spec_cover(inner.span),
            }),
        })
    } else if check(ts, p, TokenOf::Fn) {
        let (a, e, r) = sp_fn_def(ts, lim, p + 1, es);
        (1 + a, e, r)
    } else if check(ts, p, TokenOf::Cls) {
        let (a, r) = sp_cls_def(ts, p + 1);
        (1 + a, es, r)
    } else if check(ts, p, TokenOf::If) {
        let (a, e, r) = sp_if(ts, lim, p + 1, es);
        (1 + a, e, r)
    } else if check(ts, p, TokenOf::While) {
        let (a, e, r) = sp_while(ts, lim, p + 1, es);
        (1 + a, e, r)
    } else if check(ts, p, TokenOf::For) {
        let (a, e, r) = sp_for(ts, lim, p + 1, es);
        (1 + a, e, r)
    } else if check(ts, p, TokenOf::Load) {
        let (a, r) = sp_load(ts, p + 1);
        (1 + a, es, r)
    } else if check(ts, p, TokenOf::Return) {
        let (a, e, r) = sp_return(ts, lim, p + 1, es);
        (1 + a, e, r)
    } else if check(ts, p, TokenOf::Break) || check(ts, p, TokenOf::Continue) {
        let span = prev_span(ts, p + 1);
        let is_break = check(ts, p, TokenOf::Break);
        let (a, r) = sp_stmt_end(ts, p + 1, if is_break { "after break"@ } else { "after continue"@ });
        (1 + a, es, match r {
            Err(x) => Err(x),
            Ok(_) => Ok(SStmt { kind: if is_break { SStmtKind::Break } else { SStmtKind::Continue }, span }),
        })
    } else {
        sp_assign(ts, lim, p, es)
    }
}

/// `parse_return`, after `return`.
#[verifier::opaque]
pub open spec fn sp_return(ts: PTokens, lim: nat, p: int, es: Seq<PErr>) -> (nat, Seq<PErr>, Result<SStmt, PErr>)
    decreases lim, rem(ts, p), 36nat, 0int when 0 <= p < ts.len()
{
    let return_span = prev_span(ts, p);
    if !at_end(ts, p) && !check(ts, p, TokenOf::Newline) && !check(ts, p, TokenOf::Dedent) {
        let (a, e, r) = sp_expr(ts, lim, p, es);
        match r {
            Err(x) => (a, e, Err(x)),
            Ok(v) => {
                let (b, r2) = sp_stmt_end(ts, p + a, "after return"@);
                (a + b, e, match r2 {
                    Err(x) => Err(x),
                    Ok(_) => Ok(SStmt { kind: SStmtKind::Return(Some(v)), span: return_span.spec_cover(v.span) }),
                })
            },
        }
    } else {
        let (b, r2) = sp_stmt_end(ts, p, "after return"@);
        (b, es, match r2 {
            Err(x) => Err(x),
            Ok(_) => Ok(SStmt { kind: SStmtKind::Return(None), span: return_span }),
        })
    }
}

/// `parse_assignment_or_expr`.
#[verifier::opaque]
pub open spec fn sp_assign(ts: PTokens, lim: nat, p: int, es: Seq<PErr>) -> (nat, Seq<PErr>, Result<SStmt, PErr>)
    decreases lim, rem(ts, p), 35nat, 0int when 0 <= p < ts.len()
{
    let (a, e, r) = sp_expr(ts, lim, p, es);
    match r {
        Err(x) => (a, e, Err(x)),
        Ok(target) => {
            let q = p + a;
            let op = if at_end(ts, q) { None } else { assign_op(tok_at(ts, q)) };
            match op {
                None => {
                    let (b, e2, r2) = sp_finish(ts, lim, q, e, target);
                    (a + b, e2, r2)
                },
                Some(bop) => {
                    let (b, e2, r2) = sp_expr(ts, lim, q + 1, e);
                    match r2 {
                        Err(x) => (a + 1 + b, e2, Err(x)),
                        Ok(rhs) => {
                            let value = match bop {
                                Some(o) => SExpr {
                                    kind: SExprKind::BinOp { op: o, left: Box::new(target), right: Box::new(rhs) },
                                    span: target.span.spec_cover(rhs.span),
                                },
                                None => rhs,
                            };
                            let (c, r3) = sp_stmt_end(ts, q + 1 + b, "after assignment"@);
                            (a + 1 + b + c, e2, match r3 {
                                Err(x) => Err(x),
                                Ok(_) => assign_target(target, value),
                            })
                        },
                    }
                },
            }
        },
    }
}

/// `finish_expr_stmt`: a typed assignment `name Type = value`, or an expression statement.
#[verifier::opaque]
pub open spec fn sp_finish(ts: PTokens, lim: nat, p: int, es: Seq<PErr>, expr: SExpr) -> (nat, Seq<PErr>, Result<SStmt, PErr>)
    decreases lim, rem(ts, p), 34nat, 0int when 0 <= p < ts.len()
{
    let (pb, pr) = sp_stmt_end(ts, p, "after expression"@);
    let plain = (pb, es, match pr {
        Err(x) => Err(x),
        Ok(_) => Ok(SStmt { kind: SStmtKind::Expr(expr), span: expr.span }),
    });
    match expr.kind {
        SExprKind::Ident(name) => {
            let (a, ty) = sp_try_type(ts, p);
            match ty {
                None => plain,
                Some(t) => {
                    let q = p + a;
                    if check(ts, q, TokenOf::Assign) {
                        let (b, e2, r2) = sp_expr(ts, lim, q + 1, es);
                        match r2 {
                            Err(x) => (a + 1 + b, e2, Err(x)),
                            Ok(val) => {
                                let (c, r3) = sp_stmt_end(ts, q + 1 + b, "after typed assignment"@);
                                (a + 1 + b + c, e2, match r3 {
                                    Err(x) => Err(x),
                                    Ok(_) => Ok(SStmt {
                                        kind: SStmtKind::Assign {
                                            target: name,
                                            target_span: expr.span,
                                            ty: Some(t),
                                            ty_span: None,
                                            value: val,
                                        },
                                        span: expr.span.spec_cover(val.span),
                                    }),
                                })
                            },
                        }
                    } else {
                        plain
                    }
                },
            }
        },
        _ => plain,
    }
}

/// `parse_expr`: an expression, possibly followed by `if cond else alt`.
#[verifier::opaque]
pub open spec fn sp_expr(ts: PTokens, lim: nat, p: int, es: Seq<PErr>) -> (nat, Seq<PErr>, Result<SExpr, PErr>)
    decreases lim, rem(ts, p), 30nat, 0int when 0 <= p < ts.len()
{
    let (a, e, r) = sp_prec(ts, lim, p, es, 0);
    match r {
        Err(x) => (a, e, Err(x)),
        Ok(x) => {
            let q = p + a;
            if check(ts, q, TokenOf::If) {
                let (b, e2, r2) = sp_expr(ts, lim, q + 1, e);
                match r2 {
                    Err(y) => (a + 1 + b, e2, Err(y)),
                    Ok(cond) => {
                        let q2 = q + 1 + b;
                        let (c, r3) = sp_consume(ts, q2, TokenOf::Else, "expected 'else' in conditional expression"@);
                        match r3 {
                            Err(y) => (a + 1 + b + c, e2, Err(y)),
                            Ok(_) => {
                                let (d, e4, r4) = sp_expr(ts, lim, q2 + c, e2);
                                (a + 1 + b + c + d, e4, match r4 {
                                    Err(y) => Err(y),
                                    Ok(alt) => Ok(SExpr {
                                        kind: SExprKind::Ternary {
                                            cond: Box::new(cond),
                                            then: Box::new(x),
                                            else_: Box::new(alt),
                                        },
                                        span: x.span.spec_cover(alt.span),
                                    }),
                                })
                            },
                        }
                    },
                }
            } else {
                (a, e, Ok(x))
            }
        },
    }
}

/// `parse_prec`: an operand, then infix operators binding tighter than `min`.
#[verifier::opaque]
pub open spec fn sp_prec(ts: PTokens, lim: nat, p: int, es: Seq<PErr>, min: nat) -> (nat, Seq<PErr>, Result<SExpr, PErr>)
    decreases lim, rem(ts, p), 28nat, 0int when 0 <= p < ts.len()
{
    let (a, e, r) = sp_prefix(ts, lim, p, es);
    match r {
        Err(x) => (a, e, Err(x)),
        Ok(left) => {
            let (b, e2, r2) = sp_prec_loop(ts, lim, p + a, e, min, left);
            (a + b, e2, r2)
        },
    }
}

/// The infix operators after `left` that bind tighter than `min`.
#[verifier::opaque]
pub open spec fn sp_prec_loop(ts: PTokens, lim: nat, p: int, es: Seq<PErr>, min: nat, left: SExpr) -> (nat, Seq<PErr>, Result<SExpr, PErr>)
    decreases lim, rem(ts, p), 26nat, 0int when 0 <= p < ts.len()
{
    if prec_level(tok_at(ts, p)) <= min {
        (0, es, Ok(left))
    } else {
        let (a, e, r) = sp_infix(ts, lim, p, es, left);
        match r {
            Err(x) => (a, e, Err(x)),
            Ok(l2) => if a > 0 {
                let (b, e2, r2) = sp_prec_loop(ts, lim, p + a, e, min, l2);
                (a + b, e2, r2)
            } else {
                (a, e, Ok(l2))
            },
        }
    }
}

/// `parse_infix`: what follows `left` at an infix position.
#[verifier::opaque]
pub open spec fn sp_infix(ts: PTokens, lim: nat, p: int, es: Seq<PErr>, left: SExpr) -> (nat, Seq<PErr>, Result<SExpr, PErr>)
    decreases lim, rem(ts, p), 25nat, 0int when 0 <= p < ts.len()
{
    let span = span_at(ts, p);
    let tok = tok_at(ts, p);
    let s = step(ts, p);
    let q = p + s;
    match binop_of(tok) {
        Some(op) => {
            let (a, e, r) = sp_prec(ts, lim, q, es, prec_level(tok));
            (s + a, e, match r {
                Err(x) => Err(x),
                Ok(right) => Ok(SExpr {
                    kind: SExprKind::BinOp { op, left: Box::new(left), right: Box::new(right) },
                    span: left.span.spec_cover(right.span),
                }),
            })
        },
        None => match tok {
            TokenOf::LParen => {
                let (a, e, r) = sp_call_args(ts, lim, q, es);
                match r {
                    Err(x) => (s + a, e, Err(x)),
                    Ok(args) => {
                        let (b, r2) = sp_consume(ts, q + a, TokenOf::RParen, "expected ')' to close call"@);
                        (s + a + b, e, match r2 {
                            Err(x) => Err(x),
                            Ok(_) => Ok(SExpr {
                                kind: SExprKind::Call { callee: Box::new(left), args },
                                span: left.span.spec_cover(prev_span(ts, q + a + b)),
                            }),
                        })
                    },
                }
            },
            TokenOf::Dot => {
                let (a, r) = sp_ident(ts, q, "expected field name after '.'"@);
                (s + a, es, match r {
                    Err(x) => Err(x),
                    Ok((field, field_span)) => Ok(SExpr {
                        kind: SExprKind::Field { obj: Box::new(left), field, field_span },
                        span: left.span.spec_cover(field_span),
                    }),
                })
            },
            TokenOf::LBracket => {
                let (a, e, r) = sp_expr(ts, lim, q, es);
                match r {
                    Err(x) => (s + a, e, Err(x)),
                    Ok(idx) => {
                        let (b, r2) = sp_consume(ts, q + a, TokenOf::RBracket, "expected ']' to close index"@);
                        (s + a + b, e, match r2 {
                            Err(x) => Err(x),
                            Ok(_) => Ok(SExpr {
                                kind: SExprKind::Index { obj: Box::new(left), idx: Box::new(idx) },
                                span: left.span.spec_cover(prev_span(ts, q + a + b)),
                            }),
                        })
                    },
                }
            },
            TokenOf::Question => (s, es, Ok(SExpr {
                kind: SExprKind::Propagate(Box::new(left)),
                span: left.span.spec_cover(span),
            })),
            other => (s, es, Err(perr_unexpected("a valid infix operator"@, actual_name(other), span))),
        },
    }
}

/// `parse_call_args`: arguments, each optionally named, separated by commas.
#[verifier::opaque]
pub open spec fn sp_call_args(ts: PTokens, lim: nat, p: int, es: Seq<PErr>) -> (nat, Seq<PErr>, Result<Seq<SCallArg>, PErr>)
    decreases lim, rem(ts, p), 32nat, 0int when 0 <= p < ts.len()
{
    sp_call_args_loop(ts, lim, p, es, seq![])
}

#[verifier::opaque]
pub open spec fn sp_call_args_loop(ts: PTokens, lim: nat, p: int, es: Seq<PErr>, acc: Seq<SCallArg>) -> (nat, Seq<PErr>, Result<Seq<SCallArg>, PErr>)
    decreases lim, rem(ts, p), 31nat, 0int when 0 <= p < ts.len()
{
    if check(ts, p, TokenOf::RParen) || at_end(ts, p) {
        (0, es, Ok(acc))
    } else {
        let named = tok_at(ts, p) is Ident && nth_tok(ts, p, 1) is Assign;
        let (a, name) = if named {
            (1 + step(ts, p + 1), Some(tok_at(ts, p)->Ident_0))
        } else {
            (0nat, None)
        };
        let (b, e, r) = sp_expr(ts, lim, p + a, es);
        match r {
            Err(x) => (a + b, e, Err(x)),
            Ok(ex) => {
                let acc2 = acc.push(SCallArg { name, expr: ex });
                let q = p + a + b;
                if check(ts, q, TokenOf::Comma) {
                    let (c, e3, r3) = sp_call_args_loop(ts, lim, q + 1, e, acc2);
                    (a + b + 1 + c, e3, r3)
                } else {
                    (a + b, e, Ok(acc2))
                }
            },
        }
    }
}

/// `parse_list`, after `[`.
#[verifier::opaque]
pub open spec fn sp_list(ts: PTokens, lim: nat, p: int, es: Seq<PErr>, open: Span) -> (nat, Seq<PErr>, Result<SExpr, PErr>)
    decreases lim, rem(ts, p), 32nat, 0int when 0 <= p < ts.len()
{
    let (a, e, r) = sp_list_loop(ts, lim, p, es, seq![]);
    match r {
        Err(x) => (a, e, Err(x)),
        Ok(items) => {
            let (b, r2) = sp_consume(ts, p + a, TokenOf::RBracket, "expected ']' to close list"@);
            (a + b, e, match r2 {
                Err(x) => Err(x),
                Ok(_) => Ok(SExpr { kind: SExprKind::List(items), span: open.spec_cover(prev_span(ts, p + a + b)) }),
            })
        },
    }
}

#[verifier::opaque]
pub open spec fn sp_list_loop(ts: PTokens, lim: nat, p: int, es: Seq<PErr>, acc: Seq<SExpr>) -> (nat, Seq<PErr>, Result<Seq<SExpr>, PErr>)
    decreases lim, rem(ts, p), 31nat, 0int when 0 <= p < ts.len()
{
    if check(ts, p, TokenOf::RBracket) || at_end(ts, p) {
        (0, es, Ok(acc))
    } else {
        let (a, e, r) = sp_expr(ts, lim, p, es);
        match r {
            Err(x) => (a, e, Err(x)),
            Ok(x) => {
                let q = p + a;
                if check(ts, q, TokenOf::Comma) {
                    let (b, e2, r2) = sp_list_loop(ts, lim, q + 1, e, acc.push(x));
                    (a + 1 + b, e2, r2)
                } else {
                    (a, e, Ok(acc.push(x)))
                }
            },
        }
    }
}

/// `parse_map`, after `{`.
#[verifier::opaque]
pub open spec fn sp_map(ts: PTokens, lim: nat, p: int, es: Seq<PErr>, open: Span) -> (nat, Seq<PErr>, Result<SExpr, PErr>)
    decreases lim, rem(ts, p), 32nat, 0int when 0 <= p < ts.len()
{
    let (a, e, r) = sp_map_loop(ts, lim, p, es, seq![]);
    match r {
        Err(x) => (a, e, Err(x)),
        Ok(pairs) => {
            let (b, r2) = sp_consume(ts, p + a, TokenOf::RBrace, "expected '}' to close map"@);
            (a + b, e, match r2 {
                Err(x) => Err(x),
                Ok(_) => Ok(SExpr { kind: SExprKind::Dict(pairs), span: open.spec_cover(prev_span(ts, p + a + b)) }),
            })
        },
    }
}

#[verifier::opaque]
pub open spec fn sp_map_loop(ts: PTokens, lim: nat, p: int, es: Seq<PErr>, acc: Seq<(SExpr, SExpr)>) -> (nat, Seq<PErr>, Result<Seq<(SExpr, SExpr)>, PErr>)
    decreases lim, rem(ts, p), 31nat, 0int when 0 <= p < ts.len()
{
    if check(ts, p, TokenOf::RBrace) || at_end(ts, p) {
        (0, es, Ok(acc))
    } else {
        let (a, e, r) = sp_expr(ts, lim, p, es);
        match r {
            Err(x) => (a, e, Err(x)),
            Ok(key) => {
                let (b, r2) = sp_consume(ts, p + a, TokenOf::Colon, "expected ':' in map literal"@);
                match r2 {
                    Err(x) => (a + b, e, Err(x)),
                    Ok(_) => {
                        let (c, e3, r3) = sp_expr(ts, lim, p + a + b, e);
                        match r3 {
                            Err(x) => (a + b + c, e3, Err(x)),
                            Ok(val) => {
                                let q = p + a + b + c;
                                let acc2 = acc.push((key, val));
                                if check(ts, q, TokenOf::Comma) {
                                    let (d, e4, r4) = sp_map_loop(ts, lim, q + 1, e3, acc2);
                                    (a + b + c + 1 + d, e4, r4)
                                } else {
                                    (a + b + c, e3, Ok(acc2))
                                }
                            },
                        }
                    },
                }
            },
        }
    }
}

/// `parse_prefix`: a literal, a name, a prefix operator, a group, a list, a
/// map, a lambda or a `spawn`.
#[verifier::opaque]
pub open spec fn sp_prefix(ts: PTokens, lim: nat, p: int, es: Seq<PErr>) -> (nat, Seq<PErr>, Result<SExpr, PErr>)
    decreases lim, rem(ts, p), 27nat, 0int when 0 <= p < ts.len()
{
    let span = span_at(ts, p);
    let tok = tok_at(ts, p);
    let s = step(ts, p);
    let q = p + s;
    match tok {
        TokenOf::Int(n) => (s, es, Ok(SExpr { kind: SExprKind::Int(n), span })),
        TokenOf::Float(t) => (s, es, Ok(SExpr { kind: SExprKind::Float(t), span })),
        TokenOf::Bool(b) => (s, es, Ok(SExpr { kind: SExprKind::Bool(b), span })),
        TokenOf::Null => (s, es, Ok(SExpr { kind: SExprKind::Null, span })),
        TokenOf::Ident(name) => (s, es, Ok(SExpr { kind: SExprKind::Ident(name), span })),
        TokenOf::Error => (s, es, Ok(SExpr { kind: SExprKind::Ident("error"@), span })),
        TokenOf::Str(raw) => (s, es, match sp_interp(lim, raw, span) {
            Ok(x) => Ok(x),
            Err(x) => Err(perr_custom(x.message, span)),
        }),
        TokenOf::Minus => {
            let (a, e, r) = sp_prec(ts, lim, q, es, prefix_level());
            (s + a, e, match r {
                Err(x) => Err(x),
                Ok(x) => Ok(SExpr {
                    kind: SExprKind::UnaryOp { op: UnaryOp::Minus, expr: Box::new(x) },
                    span: span.spec_cover(x.span),
                }),
            })
        },
        TokenOf::Not => {
            let (a, e, r) = sp_prec(ts, lim, q, es, prefix_level());
            (s + a, e, match r {
                Err(x) => Err(x),
                Ok(x) => Ok(SExpr {
                    kind: SExprKind::UnaryOp { op: UnaryOp::Not, expr: Box::new(x) },
                    span: span.spec_cover(x.span),
                }),
            })
        },
        TokenOf::LParen => {
            let (a, e, r) = sp_expr(ts, lim, q, es);
            match r {
                Err(x) => (s + a, e, Err(x)),
                Ok(x) => {
                    let (b, r2) = sp_consume(ts, q + a, TokenOf::RParen, "expected ')' to close group"@);
                    (s + a + b, e, match r2 {
                        Err(y) => Err(y),
                        Ok(_) => Ok(SExpr { kind: x.kind, span: span.spec_cover(prev_span(ts, q + a + b)) }),
                    })
                },
            }
        },
        TokenOf::LBracket => {
            let (a, e, r) = sp_list(ts, lim, q, es, span);
            (s + a, e, r)
        },
        TokenOf::LBrace => {
            let (a, e, r) = sp_map(ts, lim, q, es, span);
            (s + a, e, r)
        },
        TokenOf::Fn => {
            let (a, e, r) = sp_lambda(ts, lim, q, es);
            (s + a, e, r)
        },
        TokenOf::Spawn => {
            let (a, e, r) = sp_expr(ts, lim, q, es);
            (s + a, e, match r {
                Err(x) => Err(x),
                Ok(x) => Ok(SExpr { kind: SExprKind::Spawn(Box::new(x)), span: span.spec_cover(x.span) }),
            })
        },
        other => (s, es, Err(perr_unexpected("an expression"@, actual_name(other), span))),
    }
}

/// The body of a function or lambda after its signature: `= expr` (with a
/// statement end when `needs_end`) or `:` and an indented block.
#[verifier::opaque]
pub open spec fn sp_fn_body(ts: PTokens, lim: nat, p: int, es: Seq<PErr>, needs_end: bool, end_ctx: Seq<char>, colon_ctx: Seq<char>) -> (nat, Seq<PErr>, Result<Seq<SStmt>, PErr>)
    decreases lim, rem(ts, p), 33nat, 0int when 0 <= p < ts.len()
{
    if check(ts, p, TokenOf::Assign) {
        let (a, e, r) = sp_expr(ts, lim, p + 1, es);
        match r {
            Err(x) => (1 + a, e, Err(x)),
            Ok(x) => {
                let (b, r2) = if needs_end { sp_stmt_end(ts, p + 1 + a, end_ctx) } else { (0nat, Ok(())) };
                (1 + a + b, e, match r2 {
                    Err(y) => Err(y),
                    Ok(_) => Ok(seq![SStmt { kind: SStmtKind::Return(Some(x)), span: x.span }]),
                })
            },
        }
    } else {
        let (a, r) = sp_consume(ts, p, TokenOf::Colon, colon_ctx);
        match r {
            Err(x) => (a, es, Err(x)),
            Ok(_) => {
                let n = sp_newlines(ts, p + a);
                let (b, e, r2) = sp_block(ts, lim, p + a + n, es);
                (a + n + b, e, r2)
            },
        }
    }
}

/// `parse_fn_def`, after `fn`.
#[verifier::opaque]
pub open spec fn sp_fn_def(ts: PTokens, lim: nat, p: int, es: Seq<PErr>) -> (nat, Seq<PErr>, Result<SStmt, PErr>)
    decreases lim, rem(ts, p), 50nat, 0int when 0 <= p < ts.len()
{
    let fn_span = prev_span(ts, p);
    let (a, r) = sp_ident(ts, p, "expected function name"@);
    match r {
        Err(x) => (a, es, Err(x)),
        Ok((name, name_span)) => {
            let (b, r2) = sp_consume(ts, p + a, TokenOf::LParen, "expected '(' after function name"@);
            match r2 {
                Err(x) => (a + b, es, Err(x)),
                Ok(_) => {
                    let q = p + a + b;
                    let (c, r3) = sp_params(ts, q, seq![]);
                    match r3 {
                        Err(x) => (a + b + c, es, Err(x)),
                        Ok(params) => {
                            let (d, r4) = sp_consume(ts, q + c, TokenOf::RParen, "expected ')' after parameters"@);
                            match r4 {
                                Err(x) => (a + b + c + d, es, Err(x)),
                                Ok(_) => {
                                    let (f, r5) = sp_ret_ty(ts, q + c + d);
                                    match r5 {
                                        Err(x) => (a + b + c + d + f, es, Err(x)),
                                        Ok(ret_ty) => {
                                            let q2 = q + c + d + f;
                                            let (g, e, r6) = sp_fn_body(ts, lim, q2, es, true,
                                                "after single-expression function"@, "expected ':' before function body"@);
                                            (a + b + c + d + f + g, e, match r6 {
                                                Err(x) => Err(x),
                                                Ok(body) => Ok(SStmt {
                                                    kind: SStmtKind::FnDef(SFnDef { name, name_span, params, ret_ty, ret_ty_span: None, body }),
                                                    span: fn_span.spec_cover(last_stmt_span(body, name_span)),
                                                }),
                                            })
                                        },
                                    }
                                },
                            }
                        },
                    }
                },
            }
        },
    }
}

/// `parse_lambda`, after `fn`.
#[verifier::opaque]
pub open spec fn sp_lambda(ts: PTokens, lim: nat, p: int, es: Seq<PErr>) -> (nat, Seq<PErr>, Result<SExpr, PErr>)
    decreases lim, rem(ts, p), 50nat, 0int when 0 <= p < ts.len()
{
    let fn_span = prev_span(ts, p);
    let (b, r2) = sp_consume(ts, p, TokenOf::LParen, "expected '(' for lambda parameters"@);
    match r2 {
        Err(x) => (b, es, Err(x)),
        Ok(_) => {
            let q = p + b;
            let (c, r3) = sp_params(ts, q, seq![]);
            match r3 {
                Err(x) => (b + c, es, Err(x)),
                Ok(params) => {
                    let (d, r4) = sp_consume(ts, q + c, TokenOf::RParen, "expected ')' after lambda parameters"@);
                    match r4 {
                        Err(x) => (b + c + d, es, Err(x)),
                        Ok(_) => {
                            let (f, r5) = sp_ret_ty(ts, q + c + d);
                            match r5 {
                                Err(x) => (b + c + d + f, es, Err(x)),
                                Ok(ret_ty) => {
                                    let q2 = q + c + d + f;
                                    let (g, e, r6) = sp_fn_body(ts, lim, q2, es, false, ""@, "expected ':' before lambda body"@);
                                    (b + c + d + f + g, e, match r6 {
                                        Err(x) => Err(x),
                                        Ok(body) => Ok(SExpr {
                                            kind: SExprKind::Lambda { params, ret_ty, ret_ty_span: None, body },
                                            span: fn_span.spec_cover(last_stmt_span(body, fn_span)),
                                        }),
                                    })
                                },
                            }
                        },
                    }
                },
            }
        },
    }
}

/// `parse_block`: an indented block of statements. Statements that fail are
/// recorded, then skipped up to the next statement boundary.
#[verifier::opaque]
pub open spec fn sp_block(ts: PTokens, lim: nat, p: int, es: Seq<PErr>) -> (nat, Seq<PErr>, Result<Seq<SStmt>, PErr>)
    decreases lim, rem(ts, p), 46nat, 0int when 0 <= p < ts.len()
{
    let (a, r) = sp_consume(ts, p, TokenOf::Indent, "expected indented block"@);
    match r {
        Err(x) => (a, es, Err(x)),
        Ok(_) => {
            let (b, e, stmts) = sp_block_loop(ts, lim, p + a, es, seq![]);
            let (c, r2) = sp_consume(ts, p + a + b, TokenOf::Dedent, "expected dedent after block"@);
            (a + b + c, e, match r2 {
                Err(x) => Err(x),
                Ok(_) => Ok(stmts),
            })
        },
    }
}

#[verifier::opaque]
pub open spec fn sp_block_loop(ts: PTokens, lim: nat, p: int, es: Seq<PErr>, acc: Seq<SStmt>) -> (nat, Seq<PErr>, Seq<SStmt>)
    decreases lim, rem(ts, p), 45nat, 0int when 0 <= p < ts.len()
{
    if check(ts, p, TokenOf::Dedent) || at_end(ts, p) {
        (0, es, acc)
    } else if check(ts, p, TokenOf::Newline) {
        let (a, e, r) = sp_block_loop(ts, lim, p + 1, es, acc);
        (1 + a, e, r)
    } else {
        let (a, e, r) = sp_stmt(ts, lim, p, es);
        let (b, e2, acc2) = match r {
            Ok(st) => (0nat, e, acc.push(st)),
            Err(x) => (sp_sync(ts, p + a), e.push(x), acc),
        };
        let q = if a + b == 0 { p + 1 } else { p + a + b };
        let (c, e3, r3) = sp_block_loop(ts, lim, q, e2, acc2);
        ((q - p) as nat + c, e3, r3)
    }
}

/// The block after a condition or loop header: a colon, newlines, an indented block.
#[verifier::opaque]
pub open spec fn sp_colon_block(ts: PTokens, lim: nat, p: int, es: Seq<PErr>, ctx: Seq<char>) -> (nat, Seq<PErr>, Result<Seq<SStmt>, PErr>)
    decreases lim, rem(ts, p), 47nat, 0int when 0 <= p < ts.len()
{
    let (a, r) = sp_consume(ts, p, TokenOf::Colon, ctx);
    match r {
        Err(x) => (a, es, Err(x)),
        Ok(_) => {
            let n = sp_newlines(ts, p + a);
            let (b, e, r2) = sp_block(ts, lim, p + a + n, es);
            (a + n + b, e, r2)
        },
    }
}

/// `parse_if`, after `if`.
#[verifier::opaque]
pub open spec fn sp_if(ts: PTokens, lim: nat, p: int, es: Seq<PErr>) -> (nat, Seq<PErr>, Result<SStmt, PErr>)
    decreases lim, rem(ts, p), 50nat, 0int when 0 <= p < ts.len()
{
    let if_span = prev_span(ts, p);
    let (a, e, r) = sp_expr(ts, lim, p, es);
    match r {
        Err(x) => (a, e, Err(x)),
        Ok(cond) => {
            let (b, e2, r2) = sp_colon_block(ts, lim, p + a, e, "expected ':' after if condition"@);
            match r2 {
                Err(x) => (a + b, e2, Err(x)),
                Ok(then) => {
                    let (c, e3, r3) = sp_elifs(ts, lim, p + a + b, e2, seq![]);
                    match r3 {
                        Err(x) => (a + b + c, e3, Err(x)),
                        Ok(elifs) => {
                            let q = p + a + b + c;
                            let (d, e4, r4) = if check(ts, q, TokenOf::Else) {
                                let (d1, e5, r5) = sp_colon_block(ts, lim, q + 1, e3, "expected ':' after else"@);
                                (1 + d1, e5, match r5 {
                                    Err(x) => Err(x),
                                    Ok(b) => Ok(Some(b)),
                                })
                            } else {
                                (0nat, e3, Ok(None))
                            };
                            (a + b + c + d, e4, match r4 {
                                Err(x) => Err(x),
                                Ok(else_) => {
                                    let end_span = if else_ is Some && else_->Some_0.len() > 0 {
                                        else_->Some_0.last().span
                                    } else if elifs.len() > 0 && elifs.last().1.len() > 0 {
                                        elifs.last().1.last().span
                                    } else {
                                        last_stmt_span(then, cond.span)
                                    };
                                    Ok(SStmt {
                                        kind: SStmtKind::If { cond, then, elifs, else_ },
                                        span: if_span.spec_cover(end_span),
                                    })
                                },
                            })
                        },
                    }
                },
            }
        },
    }
}

/// The `elif` branches of an `if`.
#[verifier::opaque]
pub open spec fn sp_elifs(ts: PTokens, lim: nat, p: int, es: Seq<PErr>, acc: Seq<(SExpr, Seq<SStmt>)>) -> (nat, Seq<PErr>, Result<Seq<(SExpr, Seq<SStmt>)>, PErr>)
    decreases lim, rem(ts, p), 49nat, 0int when 0 <= p < ts.len()
{
    if check(ts, p, TokenOf::Elif) {
        let (a, e, r) = sp_expr(ts, lim, p + 1, es);
        match r {
            Err(x) => (1 + a, e, Err(x)),
            Ok(c) => {
                let (b, e2, r2) = sp_colon_block(ts, lim, p + 1 + a, e, "expected ':' after elif condition"@);
                match r2 {
                    Err(x) => (1 + a + b, e2, Err(x)),
                    Ok(block) => {
                        let (d, e3, r3) = sp_elifs(ts, lim, p + 1 + a + b, e2, acc.push((c, block)));
                        (1 + a + b + d, e3, r3)
                    },
                }
            },
        }
    } else {
        (0, es, Ok(acc))
    }
}

/// `parse_while`, after `while`.
#[verifier::opaque]
pub open spec fn sp_while(ts: PTokens, lim: nat, p: int, es: Seq<PErr>) -> (nat, Seq<PErr>, Result<SStmt, PErr>)
    decreases lim, rem(ts, p), 50nat, 0int when 0 <= p < ts.len()
{
    let while_span = prev_span(ts, p);
    let (a, e, r) = sp_expr(ts, lim, p, es);
    match r {
        Err(x) => (a, e, Err(x)),
        Ok(cond) => {
            let (b, e2, r2) = sp_colon_block(ts, lim, p + a, e, "expected ':' after while condition"@);
            (a + b, e2, match r2 {
                Err(x) => Err(x),
                Ok(body) => Ok(SStmt {
                    kind: SStmtKind::While { cond, body },
                    span: while_span.spec_cover(last_stmt_span(body, cond.span)),
                }),
            })
        },
    }
}

/// `parse_for`, after `for`: `for x in iter [step s]:` or `for k, v in iter:`.
#[verifier::opaque]
pub open spec fn sp_for(ts: PTokens, lim: nat, p: int, es: Seq<PErr>) -> (nat, Seq<PErr>, Result<SStmt, PErr>)
    decreases lim, rem(ts, p), 50nat, 0int when 0 <= p < ts.len()
{
    let for_span = prev_span(ts, p);
    let (a, r) = sp_ident(ts, p, "expected loop variable"@);
    match r {
        Err(x) => (a, es, Err(x)),
        Ok((var1, var1_span)) => {
            let q = p + a;
            if check(ts, q, TokenOf::Comma) {
                let (b, r2) = sp_ident(ts, q + 1, "expected second loop variable"@);
                match r2 {
                    Err(x) => (a + 1 + b, es, Err(x)),
                    Ok((var2, var2_span)) => {
                        let (c, r3) = sp_consume(ts, q + 1 + b, TokenOf::In, "expected 'in' in for-kv loop"@);
                        match r3 {
                            Err(x) => (a + 1 + b + c, es, Err(x)),
                            Ok(_) => {
                                let q2 = q + 1 + b + c;
                                let (d, e, r4) = sp_expr(ts, lim, q2, es);
                                match r4 {
                                    Err(x) => (a + 1 + b + c + d, e, Err(x)),
                                    Ok(iter) => {
                                        let q3 = q2 + d;
                                        if check(ts, q3, TokenOf::Step) {
                                            (a + 1 + b + c + d, e, Err(perr_custom(
                                                "'step' is not supported in key-value for loops"@,
                                                span_at(ts, q3),
                                            )))
                                        } else {
                                            let (f, e2, r5) = sp_colon_block(ts, lim, q3, e, "expected ':' after for-kv expression"@);
                                            (a + 1 + b + c + d + f, e2, match r5 {
                                                Err(x) => Err(x),
                                                Ok(body) => Ok(SStmt {
                                                    kind: SStmtKind::ForKV {
                                                        key: var1,
                                                        key_span: var1_span,
                                                        val: var2,
                                                        val_span: var2_span,
                                                        iter,
                                                        body,
                                                    },
                                                    span: for_span.spec_cover(last_stmt_span(body, iter.span)),
                                                }),
                                            })
                                        }
                                    },
                                }
                            },
                        }
                    },
                }
            } else {
                let (c, r3) = sp_consume(ts, q, TokenOf::In, "expected 'in' in for loop"@);
                match r3 {
                    Err(x) => (a + c, es, Err(x)),
                    Ok(_) => {
                        let q2 = q + c;
                        let (d, e, r4) = sp_expr(ts, lim, q2, es);
                        match r4 {
                            Err(x) => (a + c + d, e, Err(x)),
                            Ok(iter) => {
                                let q3 = q2 + d;
                                let (g, e2, r6) = if check(ts, q3, TokenOf::Step) {
                                    let (g1, e6, r7) = sp_expr(ts, lim, q3 + 1, e);
                                    (1 + g1, e6, match r7 {
                                        Err(x) => Err(x),
                                        Ok(st) => Ok(Some(st)),
                                    })
                                } else {
                                    (0nat, e, Ok(None))
                                };
                                match r6 {
                                    Err(x) => (a + c + d + g, e2, Err(x)),
                                    Ok(step_expr) => {
                                        let (f, e3, r5) = sp_colon_block(ts, lim, q3 + g, e2, "expected ':' after for-in expression"@);
                                        (a + c + d + g + f, e3, match r5 {
                                            Err(x) => Err(x),
                                            Ok(body) => Ok(SStmt {
                                                kind: SStmtKind::For {
                                                    var: var1,
                                                    var_span: var1_span,
                                                    iter,
                                                    step: step_expr,
                                                    body,
                                                },
                                                span: for_span.spec_cover(last_stmt_span(body, iter.span)),
                                            }),
                                        })
                                    },
                                }
                            },
                        }
                    },
                }
            }
        },
    }
}

/// `parse_interpolated_string`: a string literal, split into text and `{expr}`
/// parts (`{{` and `}}` stand for braces).
#[verifier::opaque]
pub open spec fn sp_interp(lim: nat, raw: Seq<char>, span: Span) -> Result<SExpr, PErr>
    decreases lim, 0int, 1nat, 0int,
{
    if !raw.contains('{') {
        Ok(SExpr { kind: SExprKind::Str(raw), span })
    } else {
        match sp_interp_loop(lim, raw, 0, seq![], seq![], span) {
            Err(x) => Err(x),
            Ok(parts) => Ok(if parts.len() == 1 && parts[0] is Str {
                SExpr { kind: SExprKind::Str(parts[0]->Str_0), span }
            } else {
                SExpr { kind: SExprKind::Interp(parts), span }
            }),
        }
    }
}

#[verifier::opaque]
pub open spec fn sp_interp_loop(lim: nat, raw: Seq<char>, i: int, parts: Seq<SInterpPart>, buf: Seq<char>, span: Span) -> Result<Seq<SInterpPart>, PErr>
    decreases lim, 0int, 0nat, raw.len() - i,
{
    if i < 0 || i >= raw.len() {
        Ok(if buf.len() > 0 { parts.push(SInterpPart::Str(buf)) } else { parts })
    } else {
        let c = raw[i];
        if c == '{' && i + 1 < raw.len() && raw[i + 1] == '{' {
            sp_interp_loop(lim, raw, i + 2, parts, buf.push('{'), span)
        } else if c == '{' {
            let parts1 = if buf.len() > 0 { parts.push(SInterpPart::Str(buf)) } else { parts };
            match scan_interp(raw, i + 1, seq![], 0, None) {
                None => Err(perr_custom("unterminated string interpolation"@, span)),
                Some((src, j)) => {
                    proof {
                        lemma_scan_interp(raw, i + 1, seq![], 0, None);
                    }
                    match sp_inline(lim, src) {
                        Err(x) => Err(perr_custom(x.message, span)),
                        Ok(e) => sp_interp_loop(lim, raw, j, parts1.push(SInterpPart::Expr(respan_expr(e, span))), seq![], span),
                    }
                },
            }
        } else if c == '}' && i + 1 < raw.len() && raw[i + 1] == '}' {
            sp_interp_loop(lim, raw, i + 2, parts, buf.push('}'), span)
        } else {
            sp_interp_loop(lim, raw, i + 1, parts, buf.push(c), span)
        }
    }
}

/// `parse_inline_expr`: the expression of one interpolation, lexed and parsed
/// on its own; it must take the whole text.
#[verifier::opaque]
pub open spec fn sp_inline(lim: nat, src: Seq<char>) -> Result<SExpr, PErr>
    decreases lim, 0int, 0nat, 0int,
{
    if src.len() >= lim {
        Err(perr_custom("string interpolation nested too deeply"@, Span { start: 0, len: 0 }))
    } else {
        match spec_tokenize(src) {
            Err(le) => Err(perr_custom(lex_message(le), le.span)),
            Ok(toks) => {
                let ts2 = with_eof(toks);
                let (a, _, r) = sp_expr(ts2, src.len(), 0, seq![]);
                match r {
                    Err(x) => Err(x),
                    Ok(x) => if !at_end(ts2, a as int) && !(tok_at(ts2, a as int) is Newline) {
                        Err(perr_unexpected(
                            "the end of this interpolation"@,
                            actual_name(tok_at(ts2, a as int)),
                            span_at(ts2, a as int),
                        ))
                    } else {
                        Ok(x)
                    },
                }
            },
        }
    }
}

/// `parse_partial`'s loop: statements up to the end; a failed statement is
/// recorded and skipped up to the next boundary.
#[verifier::opaque]
pub open spec fn sp_partial(ts: PTokens, lim: nat, p: int, es: Seq<PErr>, acc: Seq<SStmt>) -> (Seq<SStmt>, Seq<PErr>)
    decreases rem(ts, p) when 0 <= p < ts.len()
{
    if at_end(ts, p) {
        (acc, es)
    } else if check(ts, p, TokenOf::Newline) {
        sp_partial(ts, lim, p + 1, es, acc)
    } else {
        let (a, e, r) = sp_stmt(ts, lim, p, es);
        let (b, e2, acc2) = match r {
            Ok(st) => (0nat, e, acc.push(st)),
            Err(x) => (sp_sync(ts, p + a), e.push(x), acc),
        };
        if a + b > 0 {
            sp_partial(ts, lim, p + a + b, e2, acc2)
        } else {
            (acc2, e2)
        }
    }
}

} // verus!

verus! {

/// An infix operator consumes its token.
pub proof fn lemma_infix_advances(ts: PTokens, lim: nat, p: int, es: Seq<PErr>, left: SExpr)
    requires
        0 <= p < ts.len(),
        prec_level(tok_at(ts, p)) > 0,
    ensures
        sp_infix(ts, lim, p, es, left).0 >= 1,
{
    reveal(sp_infix);
}

/// A statement that does not start at the end consumes a token.
pub proof fn lemma_stmt_advances(ts: PTokens, lim: nat, p: int, es: Seq<PErr>)
    requires
        0 <= p < ts.len(),
        !at_end(ts, p),
    ensures
        sp_stmt(ts, lim, p, es).0 >= 1,
{
    reveal(sp_prefix);
    reveal(sp_prec);
    reveal(sp_expr);
    reveal(sp_assign);
    reveal(sp_stmt);
    assert(sp_prefix(ts, lim, p, es).0 >= 1);
    assert(sp_prec(ts, lim, p, es, 0).0 >= 1);
    assert(sp_expr(ts, lim, p, es).0 >= 1);
    assert(sp_assign(ts, lim, p, es).0 >= 1);
}

/// Binding strength of the infix operators, loosest first: `or`, `and`,
/// equality, ordering comparisons, `..`, `+`/`-`, then `*`/`/`/`%` (all three
/// alike), all below prefix operators and calls; every token in one group
/// binds alike, and each operator token stands for its own operator.
pub proof fn law_operator_precedence()
    ensures
        0 < prec_level(TokenOf::Or) < prec_level(TokenOf::And),
        prec_level(TokenOf::And) < prec_level(TokenOf::EqEq),
        prec_level(TokenOf::EqEq) == prec_level(TokenOf::BangEq),
        prec_level(TokenOf::BangEq) < prec_level(TokenOf::Lt),
        prec_level(TokenOf::Lt) == prec_level(TokenOf::Gt),
        prec_level(TokenOf::Lt) == prec_level(TokenOf::LtEq),
        prec_level(TokenOf::Lt) == prec_level(TokenOf::GtEq),
        prec_level(TokenOf::GtEq) < prec_level(TokenOf::DotDot),
        prec_level(TokenOf::DotDot) < prec_level(TokenOf::Plus),
        prec_level(TokenOf::Plus) == prec_level(TokenOf::Minus),
        prec_level(TokenOf::Minus) < prec_level(TokenOf::Star),
        prec_level(TokenOf::Star) == prec_level(TokenOf::Slash),
        prec_level(TokenOf::Star) == prec_level(TokenOf::Percent),
        prec_level(TokenOf::Percent) < prefix_level(),
        prefix_level() < prec_level(TokenOf::LParen),
        binop_of(TokenOf::Plus) == Some(BinOp::Plus),
        binop_of(TokenOf::Minus) == Some(BinOp::Minus),
        binop_of(TokenOf::Star) == Some(BinOp::Star),
        binop_of(TokenOf::Slash) == Some(BinOp::Slash),
        binop_of(TokenOf::Percent) == Some(BinOp::Percent),
        binop_of(TokenOf::EqEq) == Some(BinOp::EqEq),
        binop_of(TokenOf::BangEq) == Some(BinOp::BangEq),
        binop_of(TokenOf::Lt) == Some(BinOp::Lt),
        binop_of(TokenOf::Gt) == Some(BinOp::Gt),
        binop_of(TokenOf::LtEq) == Some(BinOp::LtEq),
        binop_of(TokenOf::GtEq) == Some(BinOp::GtEq),
        binop_of(TokenOf::And) == Some(BinOp::And),
        binop_of(TokenOf::Or) == Some(BinOp::Or),
        binop_of(TokenOf::DotDot) == Some(BinOp::DotDot),
{
}

/// `x (op1) y (op2) z` is grouped by binding strength: when `op2` binds
/// tighter than `op1` it takes `y` and `z`, as in `x op1 (y op2 z)`;
/// otherwise operators of one strength group to the left, as in
/// `(x op1 y) op2 z`. Both the operand expression and the whole expression
/// (with no `if` after it) come out so, consuming the five tokens.
pub proof fn law_infix_grouping(ts: PTokens, lim: nat, es: Seq<PErr>, x: i64, y: i64, z: i64, t1: SpecToken, t2: SpecToken)
    requires
        ts.len() >= 6,
        ts[0].0 == SpecToken::Int(x),
        ts[1].0 == t1,
        ts[2].0 == SpecToken::Int(y),
        ts[3].0 == t2,
        ts[4].0 == SpecToken::Int(z),
        prec_level(ts[5].0) == 0,
        !(ts[5].0 is If),
        binop_of(t1) is Some,
        binop_of(t2) is Some,
    ensures
        sp_expr(ts, lim, 0, es) == sp_prec(ts, lim, 0, es, 0),
        ({
            let (n, e2, r) = sp_prec(ts, lim, 0, es, 0);
            &&& n == 5
            &&& e2 == es
            &&& r is Ok
            &&& if prec_level(t2) > prec_level(t1) {
                (r->Ok_0.kind matches SExprKind::BinOp { op, left, right } && op == binop_of(t1)->Some_0
                    && left.kind == SExprKind::Int(x) && (right.kind matches SExprKind::BinOp {
                    op: o2,
                    left: l2,
                    right: r2,
                } && o2 == binop_of(t2)->Some_0 && l2.kind == SExprKind::Int(y) && r2.kind == SExprKind::Int(z)))
            } else {
                (r->Ok_0.kind matches SExprKind::BinOp { op, left, right } && op == binop_of(t2)->Some_0
                    && right.kind == SExprKind::Int(z) && (left.kind matches SExprKind::BinOp {
                    op: o1,
                    left: l1,
                    right: r1,
                } && o1 == binop_of(t1)->Some_0 && l1.kind == SExprKind::Int(x) && r1.kind == SExprKind::Int(y)))
            }
        }),
{
    reveal(sp_expr);
    reveal(sp_prec);
    reveal(sp_prefix);
    reveal(sp_prec_loop);
    reveal(sp_infix);
    let p1 = prec_level(t1);
    let p2 = prec_level(t2);
    assert(p1 > 0 && p2 > 0);
    let ax = SExpr { kind: SExprKind::Int(x), span: ts[0].1 };
    let by = SExpr { kind: SExprKind::Int(y), span: ts[2].1 };
    let cz = SExpr { kind: SExprKind::Int(z), span: ts[4].1 };
    assert(sp_prefix(ts, lim, 0, es) == (1nat, es, Ok::<SExpr, PErr>(ax)));
    assert(sp_prefix(ts, lim, 2, es) == (1nat, es, Ok::<SExpr, PErr>(by)));
    assert(sp_prefix(ts, lim, 4, es) == (1nat, es, Ok::<SExpr, PErr>(cz)));
    assert(forall|m: nat, l: SExpr| #[trigger] sp_prec_loop(ts, lim, 5, es, m, l) == (0nat, es, Ok::<SExpr, PErr>(l)));
    assert(sp_prec(ts, lim, 4, es, p2) == (1nat, es, Ok::<SExpr, PErr>(cz)));
    if p2 > p1 {
        let bc = SExpr {
            kind: SExprKind::BinOp { op: binop_of(t2)->Some_0, left: Box::new(by), right: Box::new(cz) },
            span: by.span.spec_cover(cz.span),
        };
        assert(sp_infix(ts, lim, 3, es, by) == (2nat, es, Ok::<SExpr, PErr>(bc)));
        assert(sp_prec_loop(ts, lim, 5, es, p1, bc) == (0nat, es, Ok::<SExpr, PErr>(bc)));
        assert(sp_prec_loop(ts, lim, 3, es, p1, by) == (2nat, es, Ok::<SExpr, PErr>(bc)));
        assert(sp_prec(ts, lim, 2, es, p1) == (3nat, es, Ok::<SExpr, PErr>(bc)));
        let whole = SExpr {
            kind: SExprKind::BinOp { op: binop_of(t1)->Some_0, left: Box::new(ax), right: Box::new(bc) },
            span: ax.span.spec_cover(bc.span),
        };
        assert(sp_infix(ts, lim, 1, es, ax) == (4nat, es, Ok::<SExpr, PErr>(whole)));
        assert(sp_prec_loop(ts, lim, 5, es, 0, whole) == (0nat, es, Ok::<SExpr, PErr>(whole)));
        assert(sp_prec_loop(ts, lim, 1, es, 0, ax) == (4nat, es, Ok::<SExpr, PErr>(whole)));
        assert(sp_prec(ts, lim, 0, es, 0) == (5nat, es, Ok::<SExpr, PErr>(whole)));
    } else {
        assert(sp_prec_loop(ts, lim, 3, es, p1, by) == (0nat, es, Ok::<SExpr, PErr>(by)));
        assert(sp_prec(ts, lim, 2, es, p1) == (1nat, es, Ok::<SExpr, PErr>(by)));
        let ab = SExpr {
            kind: SExprKind::BinOp { op: binop_of(t1)->Some_0, left: Box::new(ax), right: Box::new(by) },
            span: ax.span.spec_cover(by.span),
        };
        assert(sp_infix(ts, lim, 1, es, ax) == (2nat, es, Ok::<SExpr, PErr>(ab)));
        let whole = SExpr {
            kind: SExprKind::BinOp { op: binop_of(t2)->Some_0, left: Box::new(ab), right: Box::new(cz) },
            span: ab.span.spec_cover(cz.span),
        };
        assert(sp_infix(ts, lim, 3, es, ab) == (2nat, es, Ok::<SExpr, PErr>(whole)));
        assert(sp_prec_loop(ts, lim, 5, es, 0, whole) == (0nat, es, Ok::<SExpr, PErr>(whole)));
        assert(sp_prec_loop(ts, lim, 3, es, 0, ab) == (2nat, es, Ok::<SExpr, PErr>(whole)));
        assert(sp_prec_loop(ts, lim, 1, es, 0, ax) == (4nat, es, Ok::<SExpr, PErr>(whole)));
        assert(sp_prec(ts, lim, 0, es, 0) == (5nat, es, Ok::<SExpr, PErr>(whole)));
    }
}

} // verus!
