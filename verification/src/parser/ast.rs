//! The syntax tree, and its mathematical counterpart used in specifications.

use vstd::prelude::*;
use crate::lexer::token::Span;
use crate::types::ty::{view_type, SpecType, Type};

verus! {

#[derive(Debug)]
pub struct Expr {
    pub kind: ExprKind,
    pub span: Span,
}

impl Expr {
    pub fn new(kind: ExprKind, span: Span) -> (r: Expr)
        ensures
            r.kind == kind,
            r.span == span,
    {
        Expr { kind, span }
    }
}

/// Float literals keep the digits of their source text.
#[derive(Debug)]
pub enum ExprKind {
    Int(i64),
    Float(String),
    Str(String),
    Bool(bool),
    Null,
    Ident(String),
    BinOp { op: BinOp, left: Box<Expr>, right: Box<Expr> },
    UnaryOp { op: UnaryOp, expr: Box<Expr> },
    Call { callee: Box<Expr>, args: Vec<CallArg> },
    Index { obj: Box<Expr>, idx: Box<Expr> },
    Field { obj: Box<Expr>, field: String, field_span: Span },
    List(Vec<Expr>),
    Dict(Vec<(Expr, Expr)>),
    Lambda { params: Vec<Param>, ret_ty: Option<Type>, ret_ty_span: Option<Span>, body: Vec<Stmt> },
    Interp(Vec<InterpPart>),
    Ternary { cond: Box<Expr>, then: Box<Expr>, else_: Box<Expr> },
    Propagate(Box<Expr>),
    Spawn(Box<Expr>),
}

#[derive(Debug)]
pub enum InterpPart {
    Str(String),
    Expr(Expr),
}

#[derive(Debug)]
pub struct Param {
    pub name: String,
    pub ty: Option<Type>,
    pub span: Span,
    pub ty_span: Option<Span>,
}

#[derive(Debug)]
pub struct CallArg {
    pub name: Option<String>,
    pub expr: Expr,
}

#[derive(Debug, Clone, Copy, PartialEq, Eq, Structural)]
pub enum BinOp {
    Plus,
    Minus,
    Star,
    Slash,
    Percent,
    EqEq,
    BangEq,
    Lt,
    Gt,
    LtEq,
    GtEq,
    And,
    Or,
    DotDot,
}

#[derive(Debug, Clone, Copy, PartialEq, Eq, Structural)]
pub enum UnaryOp {
    Minus,
    Not,
}

#[derive(Debug)]
pub struct Stmt {
    pub kind: StmtKind,
    pub span: Span,
}

impl Stmt {
    pub fn new(kind: StmtKind, span: Span) -> (r: Stmt)
        ensures
            r.kind == kind,
            r.span == span,
    {
        Stmt { kind, span }
    }
}

#[derive(Debug)]
pub enum StmtKind {
    Assign { target: String, target_span: Span, ty: Option<Type>, ty_span: Option<Span>, value: Expr },
    FieldAssign { obj: Expr, field: String, field_span: Span, value: Expr },
    IndexAssign { obj: Expr, idx: Expr, value: Expr },
    Return(Option<Expr>),
    If { cond: Expr, then: Vec<Stmt>, elifs: Vec<(Expr, Vec<Stmt>)>, else_: Option<Vec<Stmt>> },
    For { var: String, var_span: Span, iter: Expr, step: Option<Expr>, body: Vec<Stmt> },
    ForKV {
        key: String,
        key_span: Span,
        val: String,
        val_span: Span,
        iter: Expr,
        body: Vec<Stmt>,
    },
    While { cond: Expr, body: Vec<Stmt> },
    Break,
    Continue,
    Expr(Expr),
    Load { alias: String, alias_span: Span, source: String, source_span: Option<Span> },
    FnDef(FnDef),
    ClsDef(ClsDef),
    Export(Box<Stmt>),
}

#[derive(Debug)]
pub struct FnDef {
    pub name: String,
    pub name_span: Span,
    pub params: Vec<Param>,
    pub ret_ty: Option<Type>,
    pub ret_ty_span: Option<Span>,
    pub body: Vec<Stmt>,
}

#[derive(Debug)]
pub struct ClsDef {
    pub name: String,
    pub name_span: Span,
    pub fields: Vec<Param>,
}

// ── Mathematical syntax tree ───────────────────────────────────────────────

pub struct SExpr {
    pub kind: SExprKind,
    pub span: Span,
}

pub enum SExprKind {
    Int(i64),
    Float(Seq<char>),
    Str(Seq<char>),
    Bool(bool),
    Null,
    Ident(Seq<char>),
    BinOp { op: BinOp, left: Box<SExpr>, right: Box<SExpr> },
    UnaryOp { op: UnaryOp, expr: Box<SExpr> },
    Call { callee: Box<SExpr>, args: Seq<SCallArg> },
    Index { obj: Box<SExpr>, idx: Box<SExpr> },
    Field { obj: Box<SExpr>, field: Seq<char>, field_span: Span },
    List(Seq<SExpr>),
    Dict(Seq<(SExpr, SExpr)>),
    Lambda {
        params: Seq<SParam>,
        ret_ty: Option<SpecType>,
        ret_ty_span: Option<Span>,
        body: Seq<SStmt>,
    },
    Interp(Seq<SInterpPart>),
    Ternary { cond: Box<SExpr>, then: Box<SExpr>, else_: Box<SExpr> },
    Propagate(Box<SExpr>),
    Spawn(Box<SExpr>),
}

pub enum SInterpPart {
    Str(Seq<char>),
    Expr(SExpr),
}

pub struct SParam {
    pub name: Seq<char>,
    pub ty: Option<SpecType>,
    pub span: Span,
    pub ty_span: Option<Span>,
}

pub struct SCallArg {
    pub name: Option<Seq<char>>,
    pub expr: SExpr,
}

pub struct SStmt {
    pub kind: SStmtKind,
    pub span: Span,
}

pub enum SStmtKind {
    Assign {
        target: Seq<char>,
        target_span: Span,
        ty: Option<SpecType>,
        ty_span: Option<Span>,
        value: SExpr,
    },
    FieldAssign { obj: SExpr, field: Seq<char>, field_span: Span, value: SExpr },
    IndexAssign { obj: SExpr, idx: SExpr, value: SExpr },
    Return(Option<SExpr>),
    If {
        cond: SExpr,
        then: Seq<SStmt>,
        elifs: Seq<(SExpr, Seq<SStmt>)>,
        else_: Option<Seq<SStmt>>,
    },
    For { var: Seq<char>, var_span: Span, iter: SExpr, step: Option<SExpr>, body: Seq<SStmt> },
    ForKV {
        key: Seq<char>,
        key_span: Span,
        val: Seq<char>,
        val_span: Span,
        iter: SExpr,
        body: Seq<SStmt>,
    },
    While { cond: SExpr, body: Seq<SStmt> },
    Break,
    Continue,
    Expr(SExpr),
    Load { alias: Seq<char>, alias_span: Span, source: Seq<char>, source_span: Option<Span> },
    FnDef(SFnDef),
    ClsDef(SClsDef),
    Export(Box<SStmt>),
}

pub struct SFnDef {
    pub name: Seq<char>,
    pub name_span: Span,
    pub params: Seq<SParam>,
    pub ret_ty: Option<SpecType>,
    pub ret_ty_span: Option<Span>,
    pub body: Seq<SStmt>,
}

pub struct SClsDef {
    pub name: Seq<char>,
    pub name_span: Span,
    pub fields: Seq<SParam>,
}

pub open spec fn view_opt_type(t: Option<Type>) -> Option<SpecType> {
    match t {
        Some(t) => Some(view_type(t)),
        None => None,
    }
}

pub open spec fn view_param(p: Param) -> SParam {
    SParam { name: p.name@, ty: view_opt_type(p.ty), span: p.span, ty_span: p.ty_span }
}

pub open spec fn view_params(ps: Seq<Param>) -> Seq<SParam> {
    ps.map_values(|p: Param| view_param(p))
}

pub open spec fn view_opt_string(s: Option<String>) -> Option<Seq<char>> {
    match s {
        Some(s) => Some(s@),
        None => None,
    }
}

pub open spec fn view_expr(e: Expr) -> SExpr
    decreases e,
{
    SExpr { kind: view_expr_kind(e.kind), span: e.span }
}

pub open spec fn view_expr_kind(k: ExprKind) -> SExprKind
    decreases k,
{
    match k {
        ExprKind::Int(n) => SExprKind::Int(n),
        ExprKind::Float(s) => SExprKind::Float(s@),
        ExprKind::Str(s) => SExprKind::Str(s@),
        ExprKind::Bool(b) => SExprKind::Bool(b),
        ExprKind::Null => SExprKind::Null,
        ExprKind::Ident(s) => SExprKind::Ident(s@),
        ExprKind::BinOp { op, left, right } => SExprKind::BinOp {
            op,
            left: Box::new(view_expr(*left)),
            right: Box::new(view_expr(*right)),
        },
        ExprKind::UnaryOp { op, expr } => SExprKind::UnaryOp { op, expr: Box::new(view_expr(*expr)) },
        ExprKind::Call { callee, args } => SExprKind::Call {
            callee: Box::new(view_expr(*callee)),
            args: view_args(args@),
        },
        ExprKind::Index { obj, idx } => SExprKind::Index {
            obj: Box::new(view_expr(*obj)),
            idx: Box::new(view_expr(*idx)),
        },
        ExprKind::Field { obj, field, field_span } => SExprKind::Field {
            obj: Box::new(view_expr(*obj)),
            field: field@,
            field_span,
        },
        ExprKind::List(items) => SExprKind::List(view_exprs(items@)),
        ExprKind::Dict(pairs) => SExprKind::Dict(view_pairs(pairs@)),
        ExprKind::Lambda { params, ret_ty, ret_ty_span, body } => SExprKind::Lambda {
            params: view_params(params@),
            ret_ty: view_opt_type(ret_ty),
            ret_ty_span,
            body: view_stmts(body@),
        },
        ExprKind::Interp(parts) => SExprKind::Interp(view_parts(parts@)),
        ExprKind::Ternary { cond, then, else_ } => SExprKind::Ternary {
            cond: Box::new(view_expr(*cond)),
            then: Box::new(view_expr(*then)),
            else_: Box::new(view_expr(*else_)),
        },
        ExprKind::Propagate(e) => SExprKind::Propagate(Box::new(view_expr(*e))),
        ExprKind::Spawn(e) => SExprKind::Spawn(Box::new(view_expr(*e))),
    }
}

pub open spec fn view_exprs(es: Seq<Expr>) -> Seq<SExpr>
    decreases es,
{
    if es.len() == 0 {
        seq![]
    } else {
        view_exprs(es.drop_last()).push(view_expr(es.last()))
    }
}

pub open spec fn view_pairs(ps: Seq<(Expr, Expr)>) -> Seq<(SExpr, SExpr)>
    decreases ps,
{
    if ps.len() == 0 {
        seq![]
    } else {
        view_pairs(ps.drop_last()).push((view_expr(ps.last().0), view_expr(ps.last().1)))
    }
}

pub open spec fn view_args(args: Seq<CallArg>) -> Seq<SCallArg>
    decreases args,
{
    if args.len() == 0 {
        seq![]
    } else {
        view_args(args.drop_last()).push(
            SCallArg { name: view_opt_string(args.last().name), expr: view_expr(args.last().expr) },
        )
    }
}

pub open spec fn view_parts(parts: Seq<InterpPart>) -> Seq<SInterpPart>
    decreases parts,
{
    if parts.len() == 0 {
        seq![]
    } else {
        view_parts(parts.drop_last()).push(
            match parts.last() {
                InterpPart::Str(s) => SInterpPart::Str(s@),
                InterpPart::Expr(e) => SInterpPart::Expr(view_expr(e)),
            },
        )
    }
}

pub open spec fn view_stmt(s: Stmt) -> SStmt
    decreases s,
{
    SStmt { kind: view_stmt_kind(s.kind), span: s.span }
}

pub open spec fn view_opt_expr(e: Option<Expr>) -> Option<SExpr>
    decreases e,
{
    match e {
        Some(e) => Some(view_expr(e)),
        None => None,
    }
}

pub open spec fn view_stmt_kind(k: StmtKind) -> SStmtKind
    decreases k,
{
    match k {
        StmtKind::Assign { target, target_span, ty, ty_span, value } => SStmtKind::Assign {
            target: target@,
            target_span,
            ty: view_opt_type(ty),
            ty_span,
            value: view_expr(value),
        },
        StmtKind::FieldAssign { obj, field, field_span, value } => SStmtKind::FieldAssign {
            obj: view_expr(obj),
            field: field@,
            field_span,
            value: view_expr(value),
        },
        StmtKind::IndexAssign { obj, idx, value } => SStmtKind::IndexAssign {
            obj: view_expr(obj),
            idx: view_expr(idx),
            value: view_expr(value),
        },
        StmtKind::Return(e) => SStmtKind::Return(view_opt_expr(e)),
        StmtKind::If { cond, then, elifs, else_ } => SStmtKind::If {
            cond: view_expr(cond),
            then: view_stmts(then@),
            elifs: view_elifs(elifs@),
            else_: match else_ {
                Some(b) => Some(view_stmts(b@)),
                None => None,
            },
        },
        StmtKind::For { var, var_span, iter, step, body } => SStmtKind::For {
            var: var@,
            var_span,
            iter: view_expr(iter),
            step: view_opt_expr(step),
            body: view_stmts(body@),
        },
        StmtKind::ForKV { key, key_span, val, val_span, iter, body } => SStmtKind::ForKV {
            key: key@,
            key_span,
            val: val@,
            val_span,
            iter: view_expr(iter),
            body: view_stmts(body@),
        },
        StmtKind::While { cond, body } => SStmtKind::While {
            cond: view_expr(cond),
            body: view_stmts(body@),
        },
        StmtKind::Break => SStmtKind::Break,
        StmtKind::Continue => SStmtKind::Continue,
        StmtKind::Expr(e) => SStmtKind::Expr(view_expr(e)),
        StmtKind::Load { alias, alias_span, source, source_span } => SStmtKind::Load {
            alias: alias@,
            alias_span,
            source: source@,
            source_span,
        },
        StmtKind::FnDef(f) => SStmtKind::FnDef(
            SFnDef {
                name: f.name@,
                name_span: f.name_span,
                params: view_params(f.params@),
                ret_ty: view_opt_type(f.ret_ty),
                ret_ty_span: f.ret_ty_span,
                body: view_stmts(f.body@),
            },
        ),
        StmtKind::ClsDef(c) => SStmtKind::ClsDef(
            SClsDef { name: c.name@, name_span: c.name_span, fields: view_params(c.fields@) },
        ),
        StmtKind::Export(s) => SStmtKind::Export(Box::new(view_stmt(*s))),
    }
}

pub open spec fn view_stmts(ss: Seq<Stmt>) -> Seq<SStmt>
    decreases ss,
{
    if ss.len() == 0 {
        seq![]
    } else {
        view_stmts(ss.drop_last()).push(view_stmt(ss.last()))
    }
}

pub open spec fn view_elifs(es: Seq<(Expr, Vec<Stmt>)>) -> Seq<(SExpr, Seq<SStmt>)>
    decreases es,
{
    if es.len() == 0 {
        seq![]
    } else {
        view_elifs(es.drop_last()).push((view_expr(es.last().0), view_stmts(es.last().1@)))
    }
}

pub proof fn lemma_view_exprs(es: Seq<Expr>)
    ensures
        view_exprs(es).len() == es.len(),
        forall|i: int| 0 <= i < es.len() ==> #[trigger] view_exprs(es)[i] == view_expr(es[i]),
    decreases es.len(),
{
    if es.len() > 0 {
        lemma_view_exprs(es.drop_last());
        assert forall|i: int| 0 <= i < es.len() implies #[trigger] view_exprs(es)[i] == view_expr(
            es[i],
        ) by {
            if i < es.len() - 1 {
                assert(es.drop_last()[i] == es[i]);
            }
        }
    }
}

pub proof fn lemma_view_pairs(ps: Seq<(Expr, Expr)>)
    ensures
        view_pairs(ps).len() == ps.len(),
        forall|i: int|
            0 <= i < ps.len() ==> #[trigger] view_pairs(ps)[i] == (
                view_expr(ps[i].0),
                view_expr(ps[i].1),
            ),
    decreases ps.len(),
{
    if ps.len() > 0 {
        lemma_view_pairs(ps.drop_last());
        assert forall|i: int| 0 <= i < ps.len() implies #[trigger] view_pairs(ps)[i] == (
            view_expr(ps[i].0),
            view_expr(ps[i].1),
        ) by {
            if i < ps.len() - 1 {
                assert(ps.drop_last()[i] == ps[i]);
            }
        }
    }
}

pub proof fn lemma_view_args(args: Seq<CallArg>)
    ensures
        view_args(args).len() == args.len(),
        forall|i: int|
            0 <= i < args.len() ==> #[trigger] view_args(args)[i] == (SCallArg {
                name: view_opt_string(args[i].name),
                expr: view_expr(args[i].expr),
            }),
    decreases args.len(),
{
    if args.len() > 0 {
        lemma_view_args(args.drop_last());
        assert forall|i: int| 0 <= i < args.len() implies #[trigger] view_args(args)[i] == (SCallArg {
            name: view_opt_string(args[i].name),
            expr: view_expr(args[i].expr),
        }) by {
            if i < args.len() - 1 {
                assert(args.drop_last()[i] == args[i]);
            }
        }
    }
}

pub proof fn lemma_view_parts(parts: Seq<InterpPart>)
    ensures
        view_parts(parts).len() == parts.len(),
        forall|i: int|
            0 <= i < parts.len() ==> #[trigger] view_parts(parts)[i] == match parts[i] {
                InterpPart::Str(s) => SInterpPart::Str(s@),
                InterpPart::Expr(e) => SInterpPart::Expr(view_expr(e)),
            },
    decreases parts.len(),
{
    if parts.len() > 0 {
        lemma_view_parts(parts.drop_last());
        assert forall|i: int| 0 <= i < parts.len() implies #[trigger] view_parts(parts)[i] == match parts[i] {
            InterpPart::Str(s) => SInterpPart::Str(s@),
            InterpPart::Expr(e) => SInterpPart::Expr(view_expr(e)),
        } by {
            if i < parts.len() - 1 {
                assert(parts.drop_last()[i] == parts[i]);
            }
        }
    }
}

pub proof fn lemma_view_stmts(ss: Seq<Stmt>)
    ensures
        view_stmts(ss).len() == ss.len(),
        forall|i: int| 0 <= i < ss.len() ==> #[trigger] view_stmts(ss)[i] == view_stmt(ss[i]),
    decreases ss.len(),
{
    if ss.len() > 0 {
        lemma_view_stmts(ss.drop_last());
        assert forall|i: int| 0 <= i < ss.len() implies #[trigger] view_stmts(ss)[i] == view_stmt(
            ss[i],
        ) by {
            if i < ss.len() - 1 {
                assert(ss.drop_last()[i] == ss[i]);
            }
        }
    }
}

pub proof fn lemma_view_elifs(es: Seq<(Expr, Vec<Stmt>)>)
    ensures
        view_elifs(es).len() == es.len(),
        forall|i: int|
            0 <= i < es.len() ==> #[trigger] view_elifs(es)[i] == (
                view_expr(es[i].0),
                view_stmts(es[i].1@),
            ),
    decreases es.len(),
{
    if es.len() > 0 {
        lemma_view_elifs(es.drop_last());
        assert forall|i: int| 0 <= i < es.len() implies #[trigger] view_elifs(es)[i] == (
            view_expr(es[i].0),
            view_stmts(es[i].1@),
        ) by {
            if i < es.len() - 1 {
                assert(es.drop_last()[i] == es[i]);
            }
        }
    }
}

impl View for Expr {
    type V = SExpr;

    open spec fn view(&self) -> SExpr {
        view_expr(*self)
    }
}

impl View for Stmt {
    type V = SStmt;

    open spec fn view(&self) -> SStmt {
        view_stmt(*self)
    }
}

} // verus!
