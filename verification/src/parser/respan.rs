//! Replacing every span of a syntax tree by one span: the expression of a
//! string interpolation is reported at the span of its string literal.

use vstd::prelude::*;
use crate::lexer::token::Span;
use crate::parser::ast::{
    Expr, ExprKind, Stmt, StmtKind, Param, CallArg, InterpPart, FnDef, ClsDef, SParam, view_expr,
    view_stmt, view_exprs, view_stmts, view_pairs, view_args, view_parts, view_params, view_param,
    view_elifs, view_opt_string, view_opt_expr,
};
use crate::parser::ast_ops::{
    lemma_exprs_push, lemma_pairs_push, lemma_args_push, lemma_parts_push, lemma_stmts_push,
    lemma_elifs_push, lemma_take_push,
};
use crate::parser::parser::Parser;
use crate::parser::spec::{
    respan_expr, respan_stmt, respan_exprs, respan_pairs, respan_args, respan_parts,
    respan_params, respan_param, respan_stmts, respan_elifs,
};

verus! {

proof fn lemma_respan_exprs_push(v: Seq<crate::parser::ast::SExpr>, x: crate::parser::ast::SExpr, sp: Span)
    ensures
        respan_exprs(v.push(x), sp) == respan_exprs(v, sp).push(respan_expr(x, sp)),
{
    assert(v.push(x).drop_last() =~= v);
}

fn respan_param_owned(p: Param, sp: Span) -> (r: Param)
    ensures
        view_param(r) == respan_param(view_param(p), sp),
{
    let has_ty = p.ty.is_some();
    Param { name: p.name, ty: p.ty, span: sp, ty_span: if has_ty { Some(sp) } else { p.ty_span } }
}

fn respan_params_owned(v: Vec<Param>, sp: Span) -> (r: Vec<Param>)
    ensures
        view_params(r@) == respan_params(view_params(v@), sp),
{
    let ghost orig = v@;
    let mut out: Vec<Param> = Vec::new();
    for x in it: v
        invariant
            it.seq() == orig,
            out@.len() == it.index(),
            forall|j: int|
                0 <= j < it.index() ==> view_param(#[trigger] out@[j]) == respan_param(
                    view_param(orig[j]),
                    sp,
                ),
    {
        out.push(respan_param_owned(x, sp));
    }
    assert(view_params(out@) =~= respan_params(view_params(orig), sp));
    out
}

fn respan_exprs_owned(v: Vec<Expr>, sp: Span) -> (r: Vec<Expr>)
    ensures
        view_exprs(r@) == respan_exprs(view_exprs(v@), sp),
    decreases v,
{
    let ghost v0 = v;
    let ghost orig = v@;
    let mut out: Vec<Expr> = Vec::new();
    for x in it: v
        invariant
            it.seq() == orig,
            orig == v0@,
            decreases_to!(v0 => v0@),
            view_exprs(out@) == respan_exprs(view_exprs(orig.take(it.index() as int)), sp),
    {
        let ghost i = it.index() as int;
        proof {
            assert(decreases_to!(v0@ => v0@[i]));
            lemma_take_push(orig, i);
            lemma_exprs_push(orig.take(i), orig[i]);
            lemma_respan_exprs_push(view_exprs(orig.take(i)), view_expr(orig[i]), sp);
        }
        let y = respan_expr_owned(x, sp);
        proof {
            lemma_exprs_push(out@, y);
        }
        out.push(y);
    }
    assert(orig.take(orig.len() as int) =~= orig);
    out
}

fn respan_pairs_owned(v: Vec<(Expr, Expr)>, sp: Span) -> (r: Vec<(Expr, Expr)>)
    ensures
        view_pairs(r@) == respan_pairs(view_pairs(v@), sp),
    decreases v,
{
    let ghost v0 = v;
    let ghost orig = v@;
    let mut out: Vec<(Expr, Expr)> = Vec::new();
    for x in it: v
        invariant
            it.seq() == orig,
            orig == v0@,
            decreases_to!(v0 => v0@),
            view_pairs(out@) == respan_pairs(view_pairs(orig.take(it.index() as int)), sp),
    {
        let ghost i = it.index() as int;
        proof {
            assert(decreases_to!(v0@ => v0@[i]));
            lemma_take_push(orig, i);
            lemma_pairs_push(orig.take(i), orig[i]);
            let w = view_pairs(orig.take(i));
            let e = (view_expr(orig[i].0), view_expr(orig[i].1));
            assert(w.push(e).drop_last() =~= w);
        }
        let (k, val) = x;
        let y = (respan_expr_owned(k, sp), respan_expr_owned(val, sp));
        proof {
            lemma_pairs_push(out@, y);
        }
        out.push(y);
    }
    assert(orig.take(orig.len() as int) =~= orig);
    out
}

fn respan_args_owned(v: Vec<CallArg>, sp: Span) -> (r: Vec<CallArg>)
    ensures
        view_args(r@) == respan_args(view_args(v@), sp),
    decreases v,
{
    let ghost v0 = v;
    let ghost orig = v@;
    let mut out: Vec<CallArg> = Vec::new();
    for x in it: v
        invariant
            it.seq() == orig,
            orig == v0@,
            decreases_to!(v0 => v0@),
            view_args(out@) == respan_args(view_args(orig.take(it.index() as int)), sp),
    {
        let ghost i = it.index() as int;
        proof {
            assert(decreases_to!(v0@ => v0@[i]));
            lemma_take_push(orig, i);
            lemma_args_push(orig.take(i), orig[i]);
            let w = view_args(orig.take(i));
            let a = crate::parser::ast::SCallArg { name: view_opt_string(orig[i].name), expr: view_expr(orig[i].expr) };
            assert(w.push(a).drop_last() =~= w);
        }
        let CallArg { name, expr } = x;
        let y = CallArg { name, expr: respan_expr_owned(expr, sp) };
        proof {
            lemma_args_push(out@, y);
        }
        out.push(y);
    }
    assert(orig.take(orig.len() as int) =~= orig);
    out
}

fn respan_parts_owned(v: Vec<InterpPart>, sp: Span) -> (r: Vec<InterpPart>)
    ensures
        view_parts(r@) == respan_parts(view_parts(v@), sp),
    decreases v,
{
    let ghost v0 = v;
    let ghost orig = v@;
    let mut out: Vec<InterpPart> = Vec::new();
    for x in it: v
        invariant
            it.seq() == orig,
            orig == v0@,
            decreases_to!(v0 => v0@),
            view_parts(out@) == respan_parts(view_parts(orig.take(it.index() as int)), sp),
    {
        let ghost i = it.index() as int;
        proof {
            assert(decreases_to!(v0@ => v0@[i]));
            lemma_take_push(orig, i);
            lemma_parts_push(orig.take(i), orig[i]);
            let w = view_parts(orig.take(i));
            let a = match orig[i] {
                InterpPart::Str(s) => crate::parser::ast::SInterpPart::Str(s@),
                InterpPart::Expr(e) => crate::parser::ast::SInterpPart::Expr(view_expr(e)),
            };
            assert(w.push(a).drop_last() =~= w);
        }
        let y = match x {
            InterpPart::Str(s) => InterpPart::Str(s),
            InterpPart::Expr(e) => InterpPart::Expr(respan_expr_owned(e, sp)),
        };
        proof {
            lemma_parts_push(out@, y);
        }
        out.push(y);
    }
    assert(orig.take(orig.len() as int) =~= orig);
    out
}

fn respan_stmts_owned(v: Vec<Stmt>, sp: Span) -> (r: Vec<Stmt>)
    ensures
        view_stmts(r@) == respan_stmts(view_stmts(v@), sp),
    decreases v,
{
    let ghost v0 = v;
    let ghost orig = v@;
    let mut out: Vec<Stmt> = Vec::new();
    for x in it: v
        invariant
            it.seq() == orig,
            orig == v0@,
            decreases_to!(v0 => v0@),
            view_stmts(out@) == respan_stmts(view_stmts(orig.take(it.index() as int)), sp),
    {
        let ghost i = it.index() as int;
        proof {
            assert(decreases_to!(v0@ => v0@[i]));
            lemma_take_push(orig, i);
            lemma_stmts_push(orig.take(i), orig[i]);
            let w = view_stmts(orig.take(i));
            assert(w.push(view_stmt(orig[i])).drop_last() =~= w);
        }
        let y = respan_stmt_owned(x, sp);
        proof {
            lemma_stmts_push(out@, y);
        }
        out.push(y);
    }
    assert(orig.take(orig.len() as int) =~= orig);
    out
}

fn respan_elifs_owned(v: Vec<(Expr, Vec<Stmt>)>, sp: Span) -> (r: Vec<(Expr, Vec<Stmt>)>)
    ensures
        view_elifs(r@) == respan_elifs(view_elifs(v@), sp),
    decreases v,
{
    let ghost v0 = v;
    let ghost orig = v@;
    let mut out: Vec<(Expr, Vec<Stmt>)> = Vec::new();
    for x in it: v
        invariant
            it.seq() == orig,
            orig == v0@,
            decreases_to!(v0 => v0@),
            view_elifs(out@) == respan_elifs(view_elifs(orig.take(it.index() as int)), sp),
    {
        let ghost i = it.index() as int;
        proof {
            assert(decreases_to!(v0@ => v0@[i]));
            lemma_take_push(orig, i);
            lemma_elifs_push(orig.take(i), orig[i]);
            let w = view_elifs(orig.take(i));
            let a = (view_expr(orig[i].0), view_stmts(orig[i].1@));
            assert(w.push(a).drop_last() =~= w);
        }
        let (c, b) = x;
        let y = (respan_expr_owned(c, sp), respan_stmts_owned(b, sp));
        proof {
            lemma_elifs_push(out@, y);
        }
        out.push(y);
    }
    assert(orig.take(orig.len() as int) =~= orig);
    out
}

fn respan_expr_owned(e: Expr, sp: Span) -> (r: Expr)
    ensures
        r@ == respan_expr(e@, sp),
    decreases e,
{
    let Expr { kind, span: _ } = e;
    let kind = match kind {
        ExprKind::BinOp { op, left, right } => ExprKind::BinOp {
            op,
            left: Box::new(respan_expr_owned(*left, sp)),
            right: Box::new(respan_expr_owned(*right, sp)),
        },
        ExprKind::UnaryOp { op, expr } => ExprKind::UnaryOp { op, expr: Box::new(respan_expr_owned(*expr, sp)) },
        ExprKind::Call { callee, args } => ExprKind::Call {
            callee: Box::new(respan_expr_owned(*callee, sp)),
            args: respan_args_owned(args, sp),
        },
        ExprKind::Index { obj, idx } => ExprKind::Index {
            obj: Box::new(respan_expr_owned(*obj, sp)),
            idx: Box::new(respan_expr_owned(*idx, sp)),
        },
        ExprKind::Field { obj, field, field_span: _ } => ExprKind::Field {
            obj: Box::new(respan_expr_owned(*obj, sp)),
            field,
            field_span: sp,
        },
        ExprKind::List(items) => ExprKind::List(respan_exprs_owned(items, sp)),
        ExprKind::Dict(pairs) => ExprKind::Dict(respan_pairs_owned(pairs, sp)),
        ExprKind::Lambda { params, ret_ty, ret_ty_span, body } => ExprKind::Lambda {
            params: respan_params_owned(params, sp),
            ret_ty,
            ret_ty_span,
            body: respan_stmts_owned(body, sp),
        },
        ExprKind::Interp(parts) => ExprKind::Interp(respan_parts_owned(parts, sp)),
        ExprKind::Ternary { cond, then, else_ } => ExprKind::Ternary {
            cond: Box::new(respan_expr_owned(*cond, sp)),
            then: Box::new(respan_expr_owned(*then, sp)),
            else_: Box::new(respan_expr_owned(*else_, sp)),
        },
        ExprKind::Propagate(inner) => ExprKind::Propagate(Box::new(respan_expr_owned(*inner, sp))),
        ExprKind::Spawn(inner) => ExprKind::Spawn(Box::new(respan_expr_owned(*inner, sp))),
        other => other,
    };
    Expr { kind, span: sp }
}

fn respan_opt_owned(e: Option<Expr>, sp: Span) -> (r: Option<Expr>)
    ensures
        view_opt_expr(r) == match view_opt_expr(e) {
            Some(x) => Some(respan_expr(x, sp)),
            None => None,
        },
    decreases e,
{
    match e {
        Some(x) => Some(respan_expr_owned(x, sp)),
        None => None,
    }
}

fn respan_stmt_owned(s: Stmt, sp: Span) -> (r: Stmt)
    ensures
        r@ == respan_stmt(s@, sp),
    decreases s,
{
    let Stmt { kind, span: _ } = s;
    let kind = match kind {
        StmtKind::Assign { target, target_span: _, ty, ty_span, value } => {
            let has_ty = ty.is_some();
            StmtKind::Assign {
                target,
                target_span: sp,
                ty,
                ty_span: if has_ty { Some(sp) } else { ty_span },
                value: respan_expr_owned(value, sp),
            }
        },
        StmtKind::FieldAssign { obj, field, field_span: _, value } => StmtKind::FieldAssign {
            obj: respan_expr_owned(obj, sp),
            field,
            field_span: sp,
            value: respan_expr_owned(value, sp),
        },
        StmtKind::IndexAssign { obj, idx, value } => StmtKind::IndexAssign {
            obj: respan_expr_owned(obj, sp),
            idx: respan_expr_owned(idx, sp),
            value: respan_expr_owned(value, sp),
        },
        StmtKind::Return(e) => StmtKind::Return(respan_opt_owned(e, sp)),
        StmtKind::If { cond, then, elifs, else_ } => StmtKind::If {
            cond: respan_expr_owned(cond, sp),
            then: respan_stmts_owned(then, sp),
            elifs: respan_elifs_owned(elifs, sp),
            else_: match else_ {
                Some(b) => Some(respan_stmts_owned(b, sp)),
                None => None,
            },
        },
        StmtKind::For { var, var_span: _, iter, step, body } => StmtKind::For {
            var,
            var_span: sp,
            iter: respan_expr_owned(iter, sp),
            step: respan_opt_owned(step, sp),
            body: respan_stmts_owned(body, sp),
        },
        StmtKind::ForKV { key, key_span: _, val, val_span: _, iter, body } => StmtKind::ForKV {
            key,
            key_span: sp,
            val,
            val_span: sp,
            iter: respan_expr_owned(iter, sp),
            body: respan_stmts_owned(body, sp),
        },
        StmtKind::While { cond, body } => StmtKind::While {
            cond: respan_expr_owned(cond, sp),
            body: respan_stmts_owned(body, sp),
        },
        StmtKind::Expr(e) => StmtKind::Expr(respan_expr_owned(e, sp)),
        StmtKind::Load { alias, alias_span: _, source, source_span } => {
            let has = source_span.is_some();
            StmtKind::Load { alias, alias_span: sp, source, source_span: if has { Some(sp) } else { source_span } }
        },
        StmtKind::FnDef(f) => {
            let FnDef { name, name_span: _, params, ret_ty, ret_ty_span, body } = f;
            let has_ret = ret_ty.is_some();
            StmtKind::FnDef(FnDef {
                name,
                name_span: sp,
                params: respan_params_owned(params, sp),
                ret_ty,
                ret_ty_span: if has_ret { Some(sp) } else { ret_ty_span },
                body: respan_stmts_owned(body, sp),
            })
        },
        StmtKind::ClsDef(c) => {
            let ClsDef { name, name_span: _, fields } = c;
            StmtKind::ClsDef(ClsDef { name, name_span: sp, fields: respan_params_owned(fields, sp) })
        },
        StmtKind::Export(inner) => StmtKind::Export(Box::new(respan_stmt_owned(*inner, sp))),
        other => other,
    };
    Stmt { kind, span: sp }
}

impl Parser {
    /// Replaces every span in `expr` by `span`.
    pub fn overwrite_expr_span(expr: &mut Expr, span: Span)
        ensures
            final(expr)@ == respan_expr(old(expr)@, span),
    {
        let mut e = Expr::new(ExprKind::Null, span);
        core::mem::swap(&mut e, expr);
        *expr = respan_expr_owned(e, span);
    }

    /// Replaces every span in `stmt` by `span`.
    pub fn overwrite_stmt_span(stmt: &mut Stmt, span: Span)
        ensures
            final(stmt)@ == respan_stmt(old(stmt)@, span),
    {
        let mut s = Stmt::new(StmtKind::Break, span);
        core::mem::swap(&mut s, stmt);
        *stmt = respan_stmt_owned(s, span);
    }
}

} // verus!
