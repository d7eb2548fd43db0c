//! Copying syntax trees, and the views of lists of nodes as they grow.

use vstd::prelude::*;
use crate::parser::ast::{
    Expr, ExprKind, Stmt, StmtKind, Param, CallArg, InterpPart, FnDef, ClsDef, SExpr, SStmt,
    SCallArg, SInterpPart, view_expr, view_stmt, view_exprs, view_stmts, view_pairs, view_args,
    view_parts, view_params, view_param, view_elifs, view_opt_string, view_opt_type,
    view_opt_expr, lemma_view_exprs, lemma_view_stmts,
};
use crate::types::ty::Type;

verus! {

pub proof fn lemma_exprs_push(v: Seq<Expr>, x: Expr)
    ensures
        view_exprs(v.push(x)) == view_exprs(v).push(view_expr(x)),
{
    assert(v.push(x).drop_last() =~= v);
}

pub proof fn lemma_pairs_push(v: Seq<(Expr, Expr)>, x: (Expr, Expr))
    ensures
        view_pairs(v.push(x)) == view_pairs(v).push((view_expr(x.0), view_expr(x.1))),
{
    assert(v.push(x).drop_last() =~= v);
}

pub proof fn lemma_args_push(v: Seq<CallArg>, x: CallArg)
    ensures
        view_args(v.push(x)) == view_args(v).push(
            SCallArg { name: view_opt_string(x.name), expr: view_expr(x.expr) },
        ),
{
    assert(v.push(x).drop_last() =~= v);
}

pub proof fn lemma_parts_push(v: Seq<InterpPart>, x: InterpPart)
    ensures
        view_parts(v.push(x)) == view_parts(v).push(
            match x {
                InterpPart::Str(s) => SInterpPart::Str(s@),
                InterpPart::Expr(e) => SInterpPart::Expr(view_expr(e)),
            },
        ),
{
    assert(v.push(x).drop_last() =~= v);
}

pub proof fn lemma_stmts_push(v: Seq<Stmt>, x: Stmt)
    ensures
        view_stmts(v.push(x)) == view_stmts(v).push(view_stmt(x)),
{
    assert(v.push(x).drop_last() =~= v);
}

pub proof fn lemma_elifs_push(v: Seq<(Expr, Vec<Stmt>)>, x: (Expr, Vec<Stmt>))
    ensures
        view_elifs(v.push(x)) == view_elifs(v).push((view_expr(x.0), view_stmts(x.1@))),
{
    assert(v.push(x).drop_last() =~= v);
}

/// The view of a prefix one element longer.
pub proof fn lemma_take_push<A>(s: Seq<A>, i: int)
    requires
        0 <= i < s.len(),
    ensures
        s.take(i + 1) == s.take(i).push(s[i]),
{
    assert(s.take(i + 1) =~= s.take(i).push(s[i]));
}

fn dup_opt_type(t: &Option<Type>) -> (r: Option<Type>)
    ensures
        view_opt_type(r) == view_opt_type(*t),
{
    match t {
        Some(t) => Some(t.dup()),
        None => None,
    }
}

fn dup_param(p: &Param) -> (r: Param)
    ensures
        view_param(r) == view_param(*p),
{
    Param { name: p.name.clone(), ty: dup_opt_type(&p.ty), span: p.span, ty_span: p.ty_span }
}

fn dup_params(ps: &Vec<Param>) -> (r: Vec<Param>)
    ensures
        view_params(r@) == view_params(ps@),
{
    let mut out: Vec<Param> = Vec::new();
    let mut i: usize = 0;
    while i < ps.len()
        invariant
            i <= ps@.len(),
            out@.len() == i,
            forall|j: int| 0 <= j < i ==> view_param(#[trigger] out@[j]) == view_param(ps@[j]),
        decreases ps@.len() - i,
    {
        out.push(dup_param(&ps[i]));
        i = i + 1;
    }
    assert(view_params(out@) =~= view_params(ps@));
    out
}

impl Expr {
    /// A deep copy.
    pub fn dup(&self) -> (r: Expr)
        ensures
            r@ == self@,
        decreases self,
    {
        let kind = match &self.kind {
            ExprKind::Int(n) => ExprKind::Int(*n),
            ExprKind::Float(t) => ExprKind::Float(t.clone()),
            ExprKind::Str(t) => ExprKind::Str(t.clone()),
            ExprKind::Bool(b) => ExprKind::Bool(*b),
            ExprKind::Null => ExprKind::Null,
            ExprKind::Ident(n) => ExprKind::Ident(n.clone()),
            ExprKind::BinOp { op, left, right } => ExprKind::BinOp {
                op: *op,
                left: Box::new(left.dup()),
                right: Box::new(right.dup()),
            },
            ExprKind::UnaryOp { op, expr } => ExprKind::UnaryOp { op: *op, expr: Box::new(expr.dup()) },
            ExprKind::Call { callee, args } => ExprKind::Call {
                callee: Box::new(callee.dup()),
                args: dup_args(args),
            },
            ExprKind::Index { obj, idx } => ExprKind::Index {
                obj: Box::new(obj.dup()),
                idx: Box::new(idx.dup()),
            },
            ExprKind::Field { obj, field, field_span } => ExprKind::Field {
                obj: Box::new(obj.dup()),
                field: field.clone(),
                field_span: *field_span,
            },
            ExprKind::List(items) => ExprKind::List(dup_exprs(items)),
            ExprKind::Dict(pairs) => ExprKind::Dict(dup_pairs(pairs)),
            ExprKind::Lambda { params, ret_ty, ret_ty_span, body } => ExprKind::Lambda {
                params: dup_params(params),
                ret_ty: dup_opt_type(ret_ty),
                ret_ty_span: *ret_ty_span,
                body: dup_stmts(body),
            },
            ExprKind::Interp(parts) => ExprKind::Interp(dup_parts(parts)),
            ExprKind::Ternary { cond, then, else_ } => ExprKind::Ternary {
                cond: Box::new(cond.dup()),
                then: Box::new(then.dup()),
                else_: Box::new(else_.dup()),
            },
            ExprKind::Propagate(e) => ExprKind::Propagate(Box::new(e.dup())),
            ExprKind::Spawn(e) => ExprKind::Spawn(Box::new(e.dup())),
        };
        Expr { kind, span: self.span }
    }
}

fn dup_exprs(v: &Vec<Expr>) -> (r: Vec<Expr>)
    ensures
        view_exprs(r@) == view_exprs(v@),
    decreases v,
{
    let mut out: Vec<Expr> = Vec::new();
    let mut i: usize = 0;
    while i < v.len()
        invariant
            i <= v@.len(),
            view_exprs(out@) == view_exprs(v@.take(i as int)),
            decreases_to!(v => v@),
        decreases v@.len() - i,
    {
        proof {
            assert(decreases_to!(v@ => v@[i as int]));
            lemma_take_push(v@, i as int);
            lemma_exprs_push(v@.take(i as int), v@[i as int]);
        }
        let x = v[i].dup();
        proof {
            lemma_exprs_push(out@, x);
        }
        out.push(x);
        i = i + 1;
    }
    assert(v@.take(v@.len() as int) =~= v@);
    out
}

fn dup_pairs(v: &Vec<(Expr, Expr)>) -> (r: Vec<(Expr, Expr)>)
    ensures
        view_pairs(r@) == view_pairs(v@),
    decreases v,
{
    let mut out: Vec<(Expr, Expr)> = Vec::new();
    let mut i: usize = 0;
    while i < v.len()
        invariant
            i <= v@.len(),
            view_pairs(out@) == view_pairs(v@.take(i as int)),
            decreases_to!(v => v@),
        decreases v@.len() - i,
    {
        proof {
            assert(decreases_to!(v@ => v@[i as int]));
            lemma_take_push(v@, i as int);
            lemma_pairs_push(v@.take(i as int), v@[i as int]);
        }
        let x = (v[i].0.dup(), v[i].1.dup());
        proof {
            lemma_pairs_push(out@, x);
        }
        out.push(x);
        i = i + 1;
    }
    assert(v@.take(v@.len() as int) =~= v@);
    out
}

fn dup_args(v: &Vec<CallArg>) -> (r: Vec<CallArg>)
    ensures
        view_args(r@) == view_args(v@),
    decreases v,
{
    let mut out: Vec<CallArg> = Vec::new();
    let mut i: usize = 0;
    while i < v.len()
        invariant
            i <= v@.len(),
            view_args(out@) == view_args(v@.take(i as int)),
            decreases_to!(v => v@),
        decreases v@.len() - i,
    {
        proof {
            assert(decreases_to!(v@ => v@[i as int]));
            lemma_take_push(v@, i as int);
            lemma_args_push(v@.take(i as int), v@[i as int]);
        }
        let name = match &v[i].name {
            Some(n) => Some(n.clone()),
            None => None,
        };
        let x = CallArg { name, expr: v[i].expr.dup() };
        proof {
            lemma_args_push(out@, x);
        }
        out.push(x);
        i = i + 1;
    }
    assert(v@.take(v@.len() as int) =~= v@);
    out
}

fn dup_parts(v: &Vec<InterpPart>) -> (r: Vec<InterpPart>)
    ensures
        view_parts(r@) == view_parts(v@),
    decreases v,
{
    let mut out: Vec<InterpPart> = Vec::new();
    let mut i: usize = 0;
    while i < v.len()
        invariant
            i <= v@.len(),
            view_parts(out@) == view_parts(v@.take(i as int)),
            decreases_to!(v => v@),
        decreases v@.len() - i,
    {
        proof {
            assert(decreases_to!(v@ => v@[i as int]));
            lemma_take_push(v@, i as int);
            lemma_parts_push(v@.take(i as int), v@[i as int]);
        }
        let x = match &v[i] {
            InterpPart::Str(s) => InterpPart::Str(s.clone()),
            InterpPart::Expr(e) => InterpPart::Expr(e.dup()),
        };
        proof {
            lemma_parts_push(out@, x);
        }
        out.push(x);
        i = i + 1;
    }
    assert(v@.take(v@.len() as int) =~= v@);
    out
}

fn dup_stmts(v: &Vec<Stmt>) -> (r: Vec<Stmt>)
    ensures
        view_stmts(r@) == view_stmts(v@),
    decreases v,
{
    let mut out: Vec<Stmt> = Vec::new();
    let mut i: usize = 0;
    while i < v.len()
        invariant
            i <= v@.len(),
            view_stmts(out@) == view_stmts(v@.take(i as int)),
            decreases_to!(v => v@),
        decreases v@.len() - i,
    {
        proof {
            assert(decreases_to!(v@ => v@[i as int]));
            lemma_take_push(v@, i as int);
            lemma_stmts_push(v@.take(i as int), v@[i as int]);
        }
        let x = v[i].dup();
        proof {
            lemma_stmts_push(out@, x);
        }
        out.push(x);
        i = i + 1;
    }
    assert(v@.take(v@.len() as int) =~= v@);
    out
}

fn dup_elifs(v: &Vec<(Expr, Vec<Stmt>)>) -> (r: Vec<(Expr, Vec<Stmt>)>)
    ensures
        view_elifs(r@) == view_elifs(v@),
    decreases v,
{
    let mut out: Vec<(Expr, Vec<Stmt>)> = Vec::new();
    let mut i: usize = 0;
    while i < v.len()
        invariant
            i <= v@.len(),
            view_elifs(out@) == view_elifs(v@.take(i as int)),
            decreases_to!(v => v@),
        decreases v@.len() - i,
    {
        proof {
            assert(decreases_to!(v@ => v@[i as int]));
            lemma_take_push(v@, i as int);
            lemma_elifs_push(v@.take(i as int), v@[i as int]);
        }
        let x = (v[i].0.dup(), dup_stmts(&v[i].1));
        proof {
            lemma_elifs_push(out@, x);
        }
        out.push(x);
        i = i + 1;
    }
    assert(v@.take(v@.len() as int) =~= v@);
    out
}

fn dup_opt_expr(e: &Option<Expr>) -> (r: Option<Expr>)
    ensures
        view_opt_expr(r) == view_opt_expr(*e),
    decreases e,
{
    match e {
        Some(x) => Some(x.dup()),
        None => None,
    }
}

impl Stmt {
    /// A deep copy.
    pub fn dup(&self) -> (r: Stmt)
        ensures
            r@ == self@,
        decreases self,
    {
        let kind = match &self.kind {
            StmtKind::Assign { target, target_span, ty, ty_span, value } => StmtKind::Assign {
                target: target.clone(),
                target_span: *target_span,
                ty: dup_opt_type(ty),
                ty_span: *ty_span,
                value: value.dup(),
            },
            StmtKind::FieldAssign { obj, field, field_span, value } => StmtKind::FieldAssign {
                obj: obj.dup(),
                field: field.clone(),
                field_span: *field_span,
                value: value.dup(),
            },
            StmtKind::IndexAssign { obj, idx, value } => StmtKind::IndexAssign {
                obj: obj.dup(),
                idx: idx.dup(),
                value: value.dup(),
            },
            StmtKind::Return(e) => StmtKind::Return(dup_opt_expr(e)),
            StmtKind::If { cond, then, elifs, else_ } => StmtKind::If {
                cond: cond.dup(),
                then: dup_stmts(then),
                elifs: dup_elifs(elifs),
                else_: match else_ {
                    Some(b) => Some(dup_stmts(b)),
                    None => None,
                },
            },
            StmtKind::For { var, var_span, iter, step, body } => StmtKind::For {
                var: var.clone(),
                var_span: *var_span,
                iter: iter.dup(),
                step: dup_opt_expr(step),
                body: dup_stmts(body),
            },
            StmtKind::ForKV { key, key_span, val, val_span, iter, body } => StmtKind::ForKV {
                key: key.clone(),
                key_span: *key_span,
                val: val.clone(),
                val_span: *val_span,
                iter: iter.dup(),
                body: dup_stmts(body),
            },
            StmtKind::While { cond, body } => StmtKind::While { cond: cond.dup(), body: dup_stmts(body) },
            StmtKind::Break => StmtKind::Break,
            StmtKind::Continue => StmtKind::Continue,
            StmtKind::Expr(e) => StmtKind::Expr(e.dup()),
            StmtKind::Load { alias, alias_span, source, source_span } => StmtKind::Load {
                alias: alias.clone(),
                alias_span: *alias_span,
                source: source.clone(),
                source_span: *source_span,
            },
            StmtKind::FnDef(f) => StmtKind::FnDef(
                FnDef {
                    name: f.name.clone(),
                    name_span: f.name_span,
                    params: dup_params(&f.params),
                    ret_ty: dup_opt_type(&f.ret_ty),
                    ret_ty_span: f.ret_ty_span,
                    body: dup_stmts(&f.body),
                },
            ),
            StmtKind::ClsDef(c) => StmtKind::ClsDef(
                ClsDef { name: c.name.clone(), name_span: c.name_span, fields: dup_params(&c.fields) },
            ),
            StmtKind::Export(inner) => StmtKind::Export(Box::new(inner.dup())),
        };
        Stmt { kind, span: self.span }
    }
}

} // verus!
