//! The recursive core of the parser: statements and expressions.
//!
//! Each parsing method is specified by the spec function of the same name in
//! `parser::spec`: from the tokens, the position and the errors recorded so
//! far, it gives how many tokens the method consumes, the errors recorded
//! after it, and its result.

use vstd::prelude::*;
use crate::error::{ParseError, PErr, perr_custom, perr_missing, perr_unexpected};
use crate::lexer::token::{Span, Token, TokenOf, SpecToken};
use crate::lexer::lexer::{view_toks, view_tok_span, Lexer};
use crate::parser::parser::{Parser, Precedence, TEXT_LIMIT, view_errs, text, res_unit, res_span, res_ident, res_type, res_opt_type, res_expr, res_stmt, res_stmts, res_params};
use crate::lexer::chars::{str_chars, string_push};
use crate::parser::ast::{
    BinOp, UnaryOp, Expr, ExprKind, Stmt, StmtKind, Param, CallArg, InterpPart, FnDef, ClsDef,
    SExpr, SStmt, SParam, SCallArg, SInterpPart, view_expr, view_parts, view_opt_expr, view_stmt, view_exprs, view_stmts, view_pairs,
    view_args, view_params, view_param, view_elifs, view_opt_type, view_opt_string,
    lemma_view_exprs, lemma_view_stmts, lemma_view_pairs, lemma_view_args, lemma_view_elifs,
};
use crate::parser::spec::{
    lemma_infix_advances, lemma_stmt_advances,
    PTokens, actual_name, assign_op, assign_target, at_end, binop_of, check, clamp, delimiter_name, expected_name, last_stmt_span, lemma_scan_interp, named_type, nth_tok, prec_level, prefix_level, prev_span, rem, respan_args, respan_elifs, respan_expr, respan_exprs, respan_pairs, respan_param, respan_params, respan_parts, respan_stmt, respan_stmts, scan_interp, sp_assign, sp_block, sp_block_loop, sp_call_args, sp_call_args_loop, sp_cls_def, sp_colon_block, sp_consume, sp_elifs, sp_expr, sp_fields, sp_finish, sp_fn_body, sp_fn_def, sp_for, sp_ident, sp_if, sp_infix, sp_inline, sp_interp, sp_interp_loop, sp_lambda, sp_list, sp_list_loop, sp_load, sp_map, sp_map_loop, sp_newlines, sp_params, sp_partial, sp_prec, sp_prec_loop, sp_prefix, sp_ret_ty, sp_return, sp_stmt, sp_stmt_end, sp_str_lit, sp_sync, sp_try_type, sp_type, sp_type_primary, sp_type_rest, sp_while, span_at, starts_statement, step, stmt_ok, tok_at, type_start, variant_name, with_eof,
};
use crate::types::ty::{Type, SpecType, view_type, view_types, lemma_view_types};

verus! {

// ── The recursive core ─────────────────────────────────────────────────────

pub open spec fn res_args(r: Result<Vec<CallArg>, ParseError>) -> Result<Seq<SCallArg>, PErr> {
    match r {
        Ok(x) => Ok(view_args(x@)),
        Err(e) => Err(e@),
    }
}

pub open spec fn res_exprs(r: Result<Vec<Expr>, ParseError>) -> Result<Seq<SExpr>, PErr> {
    match r {
        Ok(x) => Ok(view_exprs(x@)),
        Err(e) => Err(e@),
    }
}

pub open spec fn res_pairs(r: Result<Vec<(Expr, Expr)>, ParseError>) -> Result<Seq<(SExpr, SExpr)>, PErr> {
    match r {
        Ok(x) => Ok(view_pairs(x@)),
        Err(e) => Err(e@),
    }
}

pub open spec fn res_elifs(r: Result<Vec<(Expr, Vec<Stmt>)>, ParseError>) -> Result<Seq<(SExpr, Seq<SStmt>)>, PErr> {
    match r {
        Ok(x) => Ok(view_elifs(x@)),
        Err(e) => Err(e@),
    }
}

pub open spec fn vstmts(v: Vec<Stmt>) -> Seq<SStmt> {
    view_stmts(v@)
}

impl Parser {
    /// A statement.
    #[verifier::spinoff_prover]
    #[verifier::rlimit(100)]
    fn parse_statement(&mut self) -> (r: Result<Stmt, ParseError>)
        requires
            old(self).wf(),
        ensures
            final(self).wf(),
            final(self).ts() == old(self).ts(),
            final(self).lim() == old(self).lim(),
            final(self).pos() == old(self).pos() + sp_stmt(old(self).ts(), old(self).lim(), old(self).pos(), old(self).errs()).0,
            final(self).errs() == sp_stmt(old(self).ts(), old(self).lim(), old(self).pos(), old(self).errs()).1,
            res_stmt(r) == sp_stmt(old(self).ts(), old(self).lim(), old(self).pos(), old(self).errs()).2,
        decreases old(self).lim(), rem(old(self).ts(), old(self).pos()), 40nat, 0int,
    {
        reveal(sp_stmt);
        if self.match_token(TokenOf::Export) {
            let export_span = self.previous_span();
            let inner = match self.parse_statement() {
                Ok(x) => x,
                Err(e) => return Err(e),
            };
            let span = export_span.cover(inner.span);
            return Ok(Stmt::new(StmtKind::Export(Box::new(inner)), span));
        }
        if self.match_token(TokenOf::Fn) {
            return self.parse_fn_def();
        }
        if self.match_token(TokenOf::Cls) {
            return self.parse_cls_def();
        }
        if self.match_token(TokenOf::If) {
            return self.parse_if();
        }
        if self.match_token(TokenOf::While) {
            return self.parse_while();
        }
        if self.match_token(TokenOf::For) {
            return self.parse_for();
        }
        if self.match_token(TokenOf::Load) {
            return self.parse_load();
        }
        if self.match_token(TokenOf::Return) {
            return self.parse_return();
        }
        if self.match_token(TokenOf::Break) {
            let span = self.previous_span();
            match self.expect_stmt_end("after break") {
                Ok(_) => {},
                Err(e) => return Err(e),
            }
            return Ok(Stmt::new(StmtKind::Break, span));
        }
        if self.match_token(TokenOf::Continue) {
            let span = self.previous_span();
            match self.expect_stmt_end("after continue") {
                Ok(_) => {},
                Err(e) => return Err(e),
            }
            return Ok(Stmt::new(StmtKind::Continue, span));
        }
        self.parse_assignment_or_expr()
    }

    /// A return statement, after `return`.
    #[verifier::spinoff_prover]
    #[verifier::rlimit(100)]
    fn parse_return(&mut self) -> (r: Result<Stmt, ParseError>)
        requires
            old(self).wf(),
        ensures
            final(self).wf(),
            final(self).ts() == old(self).ts(),
            final(self).lim() == old(self).lim(),
            final(self).pos() == old(self).pos() + sp_return(old(self).ts(), old(self).lim(), old(self).pos(), old(self).errs()).0,
            final(self).errs() == sp_return(old(self).ts(), old(self).lim(), old(self).pos(), old(self).errs()).1,
            res_stmt(r) == sp_return(old(self).ts(), old(self).lim(), old(self).pos(), old(self).errs()).2,
        decreases old(self).lim(), rem(old(self).ts(), old(self).pos()), 36nat, 0int,
    {
        reveal(sp_return);
        let return_span = self.previous_span();
        let has_value = !self.is_at_end() && !self.check(&TokenOf::Newline) && !self.check(&TokenOf::Dedent);
        if has_value {
            let v = match self.parse_expr() {
                Ok(x) => x,
                Err(e) => return Err(e),
            };
            let span = return_span.cover(v.span);
            match self.expect_stmt_end("after return") {
                Ok(_) => {},
                Err(e) => return Err(e),
            }
            assert(view_opt_expr(Some(v)) == Some(v@));
            Ok(Stmt::new(StmtKind::Return(Some(v)), span))
        } else {
            match self.expect_stmt_end("after return") {
                Ok(_) => {},
                Err(e) => return Err(e),
            }
            assert(view_opt_expr(None) is None);
            Ok(Stmt::new(StmtKind::Return(None), return_span))
        }
    }

    /// An assignment (plain or compound) or an expression statement.
    #[verifier::spinoff_prover]
    #[verifier::rlimit(100)]
    fn parse_assignment_or_expr(&mut self) -> (r: Result<Stmt, ParseError>)
        requires
            old(self).wf(),
        ensures
            final(self).wf(),
            final(self).ts() == old(self).ts(),
            final(self).lim() == old(self).lim(),
            final(self).pos() == old(self).pos() + sp_assign(old(self).ts(), old(self).lim(), old(self).pos(), old(self).errs()).0,
            final(self).errs() == sp_assign(old(self).ts(), old(self).lim(), old(self).pos(), old(self).errs()).1,
            res_stmt(r) == sp_assign(old(self).ts(), old(self).lim(), old(self).pos(), old(self).errs()).2,
        decreases old(self).lim(), rem(old(self).ts(), old(self).pos()), 35nat, 0int,
    {
        reveal(sp_assign);
        let expr = match self.parse_expr() {
            Ok(x) => x,
            Err(e) => return Err(e),
        };
        let compound: Option<Option<BinOp>> = if self.match_token(TokenOf::Assign) {
            Some(None)
        } else if self.match_token(TokenOf::PlusEq) {
            Some(Some(BinOp::Plus))
        } else if self.match_token(TokenOf::MinusEq) {
            Some(Some(BinOp::Minus))
        } else if self.match_token(TokenOf::StarEq) {
            Some(Some(BinOp::Star))
        } else if self.match_token(TokenOf::SlashEq) {
            Some(Some(BinOp::Slash))
        } else {
            None
        };
        match compound {
            None => self.finish_expr_stmt(expr),
            Some(op) => {
                let rhs = match self.parse_expr() {
                    Ok(x) => x,
                    Err(e) => return Err(e),
                };
                let value = match op {
                    Some(bin) => {
                        let span = expr.span.cover(rhs.span);
                        Expr::new(ExprKind::BinOp { op: bin, left: Box::new(expr.dup()), right: Box::new(rhs) }, span)
                    },
                    None => rhs,
                };
                match self.expect_stmt_end("after assignment") {
                    Ok(_) => {},
                    Err(e) => return Err(e),
                }
                Self::assign_to(expr, value)
            },
        }
    }

    /// The statement for `target = value`, when `target` can be assigned to.
    #[verifier::spinoff_prover]
    fn assign_to(target: Expr, value: Expr) -> (r: Result<Stmt, ParseError>)
        ensures
            res_stmt(r) == assign_target(target@, value@),
    {
        let span = target.span.cover(value.span);
        match target.kind {
            ExprKind::Ident(name) => Ok(Stmt::new(
                StmtKind::Assign { target: name, target_span: target.span, ty: None, ty_span: None, value },
                span,
            )),
            ExprKind::Field { obj, field, field_span } => Ok(Stmt::new(
                StmtKind::FieldAssign { obj: *obj, field, field_span, value },
                span,
            )),
            ExprKind::Index { obj, idx } => Ok(Stmt::new(StmtKind::IndexAssign { obj: *obj, idx: *idx, value }, span)),
            _ => Err(ParseError::new(text("invalid assignment target"), target.span)),
        }
    }

    /// A typed assignment `name Type = value`, or an expression statement.
    #[verifier::spinoff_prover]
    #[verifier::rlimit(100)]
    fn finish_expr_stmt(&mut self, expr: Expr) -> (r: Result<Stmt, ParseError>)
        requires
            old(self).wf(),
        ensures
            final(self).wf(),
            final(self).ts() == old(self).ts(),
            final(self).lim() == old(self).lim(),
            final(self).pos() == old(self).pos() + sp_finish(old(self).ts(), old(self).lim(), old(self).pos(), old(self).errs(), expr@).0,
            final(self).errs() == sp_finish(old(self).ts(), old(self).lim(), old(self).pos(), old(self).errs(), expr@).1,
            res_stmt(r) == sp_finish(old(self).ts(), old(self).lim(), old(self).pos(), old(self).errs(), expr@).2,
        decreases old(self).lim(), rem(old(self).ts(), old(self).pos()), 34nat, 0int,
    {
        reveal(sp_finish);
        let name = match &expr.kind {
            ExprKind::Ident(name) => Some(name.clone()),
            _ => None,
        };
        match name {
            Some(name) => {
                let checkpoint = self.current;
                let ty = match self.try_parse_type() {
                    Ok(t) => t,
                    Err(e) => return Err(e),
                };
                match ty {
                    Some(ty) => {
                        if self.match_token(TokenOf::Assign) {
                            let val = match self.parse_expr() {
                                Ok(x) => x,
                                Err(e) => return Err(e),
                            };
                            match self.expect_stmt_end("after typed assignment") {
                                Ok(_) => {},
                                Err(e) => return Err(e),
                            }
                            let span = expr.span.cover(val.span);
                            return Ok(Stmt::new(
                                StmtKind::Assign { target: name, target_span: expr.span, ty: Some(ty), ty_span: None, value: val },
                                span,
                            ));
                        }
                        self.current = checkpoint;
                    },
                    None => {},
                }
            },
            None => {},
        }
        match self.expect_stmt_end("after expression") {
            Ok(_) => {},
            Err(e) => return Err(e),
        }
        let span = expr.span;
        Ok(Stmt::new(StmtKind::Expr(expr), span))
    }

    /// An expression, possibly followed by `if cond else alt`.
    #[verifier::spinoff_prover]
    fn parse_expr(&mut self) -> (r: Result<Expr, ParseError>)
        requires
            old(self).wf(),
        ensures
            final(self).wf(),
            final(self).ts() == old(self).ts(),
            final(self).lim() == old(self).lim(),
            final(self).pos() == old(self).pos() + sp_expr(old(self).ts(), old(self).lim(), old(self).pos(), old(self).errs()).0,
            final(self).errs() == sp_expr(old(self).ts(), old(self).lim(), old(self).pos(), old(self).errs()).1,
            res_expr(r) == sp_expr(old(self).ts(), old(self).lim(), old(self).pos(), old(self).errs()).2,
        decreases old(self).lim(), rem(old(self).ts(), old(self).pos()), 30nat, 0int,
    {
        reveal(sp_expr);
        let expr = match self.parse_prec(Precedence::Lowest) {
            Ok(x) => x,
            Err(e) => return Err(e),
        };
        if self.match_token(TokenOf::If) {
            let cond = match self.parse_expr() {
                Ok(x) => x,
                Err(e) => return Err(e),
            };
            match self.consume(TokenOf::Else, "expected 'else' in conditional expression") {
                Ok(_) => {},
                Err(e) => return Err(e),
            }
            let alt = match self.parse_expr() {
                Ok(x) => x,
                Err(e) => return Err(e),
            };
            let span = expr.span.cover(alt.span);
            return Ok(Expr::new(ExprKind::Ternary { cond: Box::new(cond), then: Box::new(expr), else_: Box::new(alt) }, span));
        }
        Ok(expr)
    }

    /// An operand, then the infix operators that bind tighter than `min_prec`.
    #[verifier::spinoff_prover]
    fn parse_prec(&mut self, min_prec: Precedence) -> (r: Result<Expr, ParseError>)
        requires
            old(self).wf(),
        ensures
            final(self).wf(),
            final(self).ts() == old(self).ts(),
            final(self).lim() == old(self).lim(),
            final(self).pos() == old(self).pos() + sp_prec(old(self).ts(), old(self).lim(), old(self).pos(), old(self).errs(), min_prec.spec_level()).0,
            final(self).errs() == sp_prec(old(self).ts(), old(self).lim(), old(self).pos(), old(self).errs(), min_prec.spec_level()).1,
            res_expr(r) == sp_prec(old(self).ts(), old(self).lim(), old(self).pos(), old(self).errs(), min_prec.spec_level()).2,
        decreases old(self).lim(), rem(old(self).ts(), old(self).pos()), 28nat, 0int,
    {
        reveal(sp_prec);
        reveal(sp_prec_loop);
        let first = match self.parse_prefix() {
            Ok(x) => x,
            Err(e) => return Err(e),
        };
        let ghost p1 = self.pos();
        let ghost e1 = self.errs();
        let mut left = first;
        loop
            invariant
                self.wf(),
                self.ts() == old(self).ts(),
                self.lim() == old(self).lim(),
                old(self).pos() <= p1 <= self.pos(),
                sp_prec(old(self).ts(), old(self).lim(), old(self).pos(), old(self).errs(), min_prec.spec_level()) == ({
                    let (b, e, r2) = sp_prec_loop(self.ts(), self.lim(), self.pos(), self.errs(), min_prec.spec_level(), left@);
                    (((self.pos() - old(self).pos()) + b) as nat, e, r2)
                }),
            decreases self.tokens@.len() - self.current,
        {
            reveal(sp_prec_loop);
            let prec = Precedence::of(self.peek());
            if prec.level() <= min_prec.level() {
                return Ok(left);
            }
            proof {
                lemma_infix_advances(self.ts(), self.lim(), self.pos(), self.errs(), left@);
            }
            left = match self.parse_infix(left) {
                Ok(x) => x,
                Err(e) => return Err(e),
            };
        }
    }

    /// What follows `left` at an infix position.
    #[verifier::spinoff_prover]
    #[verifier::rlimit(100)]
    fn parse_infix(&mut self, left: Expr) -> (r: Result<Expr, ParseError>)
        requires
            old(self).wf(),
        ensures
            final(self).wf(),
            final(self).ts() == old(self).ts(),
            final(self).lim() == old(self).lim(),
            final(self).pos() == old(self).pos() + sp_infix(old(self).ts(), old(self).lim(), old(self).pos(), old(self).errs(), left@).0,
            final(self).errs() == sp_infix(old(self).ts(), old(self).lim(), old(self).pos(), old(self).errs(), left@).1,
            res_expr(r) == sp_infix(old(self).ts(), old(self).lim(), old(self).pos(), old(self).errs(), left@).2,
        decreases old(self).lim(), rem(old(self).ts(), old(self).pos()), 25nat, 0int,
    {
        reveal(sp_infix);
        let span = self.peek_span();
        let tok = self.advance();
        match BinOp::from_token(&tok) {
            Some(op) => {
                let prec = Precedence::of(&tok);
                let right = match self.parse_prec(prec) {
                    Ok(x) => x,
                    Err(e) => return Err(e),
                };
                let span = left.span.cover(right.span);
                Ok(Expr::new(ExprKind::BinOp { op, left: Box::new(left), right: Box::new(right) }, span))
            },
            None => match tok {
                TokenOf::LParen => {
                    let args = match self.parse_call_args() {
                        Ok(x) => x,
                        Err(e) => return Err(e),
                    };
                    match self.consume(TokenOf::RParen, "expected ')' to close call") {
                        Ok(_) => {},
                        Err(e) => return Err(e),
                    }
                    let expr_span = left.span.cover(self.previous_span());
                    Ok(Expr::new(ExprKind::Call { callee: Box::new(left), args }, expr_span))
                },
                TokenOf::Dot => {
                    let (field, field_span) = match self.consume_ident("expected field name after '.'") {
                        Ok(x) => x,
                        Err(e) => return Err(e),
                    };
                    let expr_span = left.span.cover(field_span);
                    Ok(Expr::new(ExprKind::Field { obj: Box::new(left), field, field_span }, expr_span))
                },
                TokenOf::LBracket => {
                    let idx = match self.parse_expr() {
                        Ok(x) => x,
                        Err(e) => return Err(e),
                    };
                    match self.consume(TokenOf::RBracket, "expected ']' to close index") {
                        Ok(_) => {},
                        Err(e) => return Err(e),
                    }
                    let expr_span = left.span.cover(self.previous_span());
                    Ok(Expr::new(ExprKind::Index { obj: Box::new(left), idx: Box::new(idx) }, expr_span))
                },
                TokenOf::Question => {
                    let s = left.span.cover(span);
                    Ok(Expr::new(ExprKind::Propagate(Box::new(left)), s))
                },
                other => Err(ParseError::unexpected_token(text("a valid infix operator"), Self::actual_name(&other), span)),
            },
        }
    }

    /// The arguments of a call, each optionally named, separated by commas.
    #[verifier::spinoff_prover]
    fn parse_call_args(&mut self) -> (r: Result<Vec<CallArg>, ParseError>)
        requires
            old(self).wf(),
        ensures
            final(self).wf(),
            final(self).ts() == old(self).ts(),
            final(self).lim() == old(self).lim(),
            final(self).pos() == old(self).pos() + sp_call_args(old(self).ts(), old(self).lim(), old(self).pos(), old(self).errs()).0,
            final(self).errs() == sp_call_args(old(self).ts(), old(self).lim(), old(self).pos(), old(self).errs()).1,
            res_args(r) == sp_call_args(old(self).ts(), old(self).lim(), old(self).pos(), old(self).errs()).2,
        decreases old(self).lim(), rem(old(self).ts(), old(self).pos()), 32nat, 0int,
    {
        reveal(sp_call_args);
        reveal(sp_call_args_loop);
        let mut args: Vec<CallArg> = Vec::new();
        assert(view_args(args@) =~= Seq::<SCallArg>::empty());
        loop
            invariant
                self.wf(),
                self.ts() == old(self).ts(),
                self.lim() == old(self).lim(),
                old(self).pos() <= self.pos(),
                sp_call_args(old(self).ts(), old(self).lim(), old(self).pos(), old(self).errs()) == ({
                    let (b, e, r2) = sp_call_args_loop(self.ts(), self.lim(), self.pos(), self.errs(), view_args(args@));
                    (((self.pos() - old(self).pos()) + b) as nat, e, r2)
                }),
            decreases self.tokens@.len() - self.current,
        {
            reveal(sp_call_args_loop);
            if self.check(&TokenOf::RParen) || self.is_at_end() {
                return Ok(args);
            }
            let named = match self.peek() {
                TokenOf::Ident(_) => match self.peek_nth(1) {
                    TokenOf::Assign => true,
                    _ => false,
                },
                _ => false,
            };
            let arg = if named {
                let (name, _) = match self.consume_ident("expected argument name") {
                    Ok(x) => x,
                    Err(e) => return Err(e),
                };
                self.advance();
                let ex = match self.parse_expr() {
                    Ok(x) => x,
                    Err(e) => return Err(e),
                };
                CallArg { name: Some(name), expr: ex }
            } else {
                let ex = match self.parse_expr() {
                    Ok(x) => x,
                    Err(e) => return Err(e),
                };
                CallArg { name: None, expr: ex }
            };
            let ghost before = args@;
            args.push(arg);
            proof {
                crate::parser::ast_ops::lemma_args_push(before, arg);
            }
            if !self.match_token(TokenOf::Comma) {
                return Ok(args);
            }
        }
    }

    /// The items of a list literal, up to its `]`.
    #[verifier::spinoff_prover]
    fn parse_list_items(&mut self) -> (r: Result<Vec<Expr>, ParseError>)
        requires
            old(self).wf(),
        ensures
            final(self).wf(),
            final(self).ts() == old(self).ts(),
            final(self).lim() == old(self).lim(),
            final(self).pos() == old(self).pos() + sp_list_loop(old(self).ts(), old(self).lim(), old(self).pos(), old(self).errs(), seq![]).0,
            final(self).errs() == sp_list_loop(old(self).ts(), old(self).lim(), old(self).pos(), old(self).errs(), seq![]).1,
            res_exprs(r) == sp_list_loop(old(self).ts(), old(self).lim(), old(self).pos(), old(self).errs(), seq![]).2,
        decreases old(self).lim(), rem(old(self).ts(), old(self).pos()), 31nat, 0int,
    {
        reveal(sp_list_loop);
        let mut items: Vec<Expr> = Vec::new();
        assert(view_exprs(items@) =~= Seq::<SExpr>::empty());
        loop
            invariant
                self.wf(),
                self.ts() == old(self).ts(),
                self.lim() == old(self).lim(),
                old(self).pos() <= self.pos(),
                sp_list_loop(old(self).ts(), old(self).lim(), old(self).pos(), old(self).errs(), seq![]) == ({
                    let (b, e, r2) = sp_list_loop(self.ts(), self.lim(), self.pos(), self.errs(), view_exprs(items@));
                    (((self.pos() - old(self).pos()) + b) as nat, e, r2)
                }),
            decreases self.tokens@.len() - self.current,
        {
            reveal(sp_list_loop);
            if self.check(&TokenOf::RBracket) || self.is_at_end() {
                return Ok(items);
            }
            let x = match self.parse_expr() {
                Ok(x) => x,
                Err(e) => return Err(e),
            };
            let ghost before = items@;
            items.push(x);
            proof {
                crate::parser::ast_ops::lemma_exprs_push(before, x);
            }
            if !self.match_token(TokenOf::Comma) {
                return Ok(items);
            }
        }
    }

    /// A list literal, after `[`.
    #[verifier::spinoff_prover]
    #[verifier::rlimit(100)]
    fn parse_list(&mut self, open_span: Span) -> (r: Result<Expr, ParseError>)
        requires
            old(self).wf(),
        ensures
            final(self).wf(),
            final(self).ts() == old(self).ts(),
            final(self).lim() == old(self).lim(),
            final(self).pos() == old(self).pos() + sp_list(old(self).ts(), old(self).lim(), old(self).pos(), old(self).errs(), open_span).0,
            final(self).errs() == sp_list(old(self).ts(), old(self).lim(), old(self).pos(), old(self).errs(), open_span).1,
            res_expr(r) == sp_list(old(self).ts(), old(self).lim(), old(self).pos(), old(self).errs(), open_span).2,
        decreases old(self).lim(), rem(old(self).ts(), old(self).pos()), 32nat, 0int,
    {
        reveal(sp_list);
        let items = match self.parse_list_items() {
            Ok(x) => x,
            Err(e) => return Err(e),
        };
        match self.consume(TokenOf::RBracket, "expected ']' to close list") {
            Ok(_) => {},
            Err(e) => return Err(e),
        }
        let span = open_span.cover(self.previous_span());
        Ok(Expr::new(ExprKind::List(items), span))
    }

    /// The pairs of a map literal, up to its `}`.
    #[verifier::spinoff_prover]
    fn parse_map_items(&mut self) -> (r: Result<Vec<(Expr, Expr)>, ParseError>)
        requires
            old(self).wf(),
        ensures
            final(self).wf(),
            final(self).ts() == old(self).ts(),
            final(self).lim() == old(self).lim(),
            final(self).pos() == old(self).pos() + sp_map_loop(old(self).ts(), old(self).lim(), old(self).pos(), old(self).errs(), seq![]).0,
            final(self).errs() == sp_map_loop(old(self).ts(), old(self).lim(), old(self).pos(), old(self).errs(), seq![]).1,
            res_pairs(r) == sp_map_loop(old(self).ts(), old(self).lim(), old(self).pos(), old(self).errs(), seq![]).2,
        decreases old(self).lim(), rem(old(self).ts(), old(self).pos()), 31nat, 0int,
    {
        reveal(sp_map_loop);
        let mut pairs: Vec<(Expr, Expr)> = Vec::new();
        assert(view_pairs(pairs@) =~= Seq::<(SExpr, SExpr)>::empty());
        loop
            invariant
                self.wf(),
                self.ts() == old(self).ts(),
                self.lim() == old(self).lim(),
                old(self).pos() <= self.pos(),
                sp_map_loop(old(self).ts(), old(self).lim(), old(self).pos(), old(self).errs(), seq![]) == ({
                    let (b, e, r2) = sp_map_loop(self.ts(), self.lim(), self.pos(), self.errs(), view_pairs(pairs@));
                    (((self.pos() - old(self).pos()) + b) as nat, e, r2)
                }),
            decreases self.tokens@.len() - self.current,
        {
            reveal(sp_map_loop);
            if self.check(&TokenOf::RBrace) || self.is_at_end() {
                return Ok(pairs);
            }
            let key = match self.parse_expr() {
                Ok(x) => x,
                Err(e) => return Err(e),
            };
            match self.consume(TokenOf::Colon, "expected ':' in map literal") {
                Ok(_) => {},
                Err(e) => return Err(e),
            }
            let val = match self.parse_expr() {
                Ok(x) => x,
                Err(e) => return Err(e),
            };
            let ghost before = pairs@;
            let pr = (key, val);
            pairs.push(pr);
            proof {
                crate::parser::ast_ops::lemma_pairs_push(before, pr);
            }
            if !self.match_token(TokenOf::Comma) {
                return Ok(pairs);
            }
        }
    }

    /// A map literal, after `{`.
    #[verifier::spinoff_prover]
    fn parse_map(&mut self, open_span: Span) -> (r: Result<Expr, ParseError>)
        requires
            old(self).wf(),
        ensures
            final(self).wf(),
            final(self).ts() == old(self).ts(),
            final(self).lim() == old(self).lim(),
            final(self).pos() == old(self).pos() + sp_map(old(self).ts(), old(self).lim(), old(self).pos(), old(self).errs(), open_span).0,
            final(self).errs() == sp_map(old(self).ts(), old(self).lim(), old(self).pos(), old(self).errs(), open_span).1,
            res_expr(r) == sp_map(old(self).ts(), old(self).lim(), old(self).pos(), old(self).errs(), open_span).2,
        decreases old(self).lim(), rem(old(self).ts(), old(self).pos()), 32nat, 0int,
    {
        reveal(sp_map);
        let pairs = match self.parse_map_items() {
            Ok(x) => x,
            Err(e) => return Err(e),
        };
        match self.consume(TokenOf::RBrace, "expected '}' to close map") {
            Ok(_) => {},
            Err(e) => return Err(e),
        }
        let span = open_span.cover(self.previous_span());
        Ok(Expr::new(ExprKind::Dict(pairs), span))
    }

    /// An operand: a literal, a name, a prefix operator, a group, a list, a
    /// map, a lambda or a `spawn`.
    #[verifier::spinoff_prover]
    #[verifier::rlimit(100)]
    fn parse_prefix(&mut self) -> (r: Result<Expr, ParseError>)
        requires
            old(self).wf(),
        ensures
            final(self).wf(),
            final(self).ts() == old(self).ts(),
            final(self).lim() == old(self).lim(),
            final(self).pos() == old(self).pos() + sp_prefix(old(self).ts(), old(self).lim(), old(self).pos(), old(self).errs()).0,
            final(self).errs() == sp_prefix(old(self).ts(), old(self).lim(), old(self).pos(), old(self).errs()).1,
            res_expr(r) == sp_prefix(old(self).ts(), old(self).lim(), old(self).pos(), old(self).errs()).2,
        decreases old(self).lim(), rem(old(self).ts(), old(self).pos()), 27nat, 0int,
    {
        reveal(sp_prefix);
        let span = self.peek_span();
        let tok = self.advance();
        match tok {
            TokenOf::Int(n) => Ok(Expr::new(ExprKind::Int(n), span)),
            TokenOf::Float(t) => Ok(Expr::new(ExprKind::Float(t), span)),
            TokenOf::Bool(b) => Ok(Expr::new(ExprKind::Bool(b), span)),
            TokenOf::Null => Ok(Expr::new(ExprKind::Null, span)),
            TokenOf::Ident(s) => Ok(Expr::new(ExprKind::Ident(s), span)),
            TokenOf::Error => Ok(Expr::new(ExprKind::Ident(text("error")), span)),
            TokenOf::Str(s) => match self.parse_interpolated_string(s.as_str(), span) {
                Ok(e) => Ok(e),
                Err(err) => Err(ParseError::new(err.message, span)),
            },
            TokenOf::Minus => {
                let expr = match self.parse_prec(Precedence::Prefix) {
                    Ok(x) => x,
                    Err(e) => return Err(e),
                };
                let s = span.cover(expr.span);
                Ok(Expr::new(ExprKind::UnaryOp { op: UnaryOp::Minus, expr: Box::new(expr) }, s))
            },
            TokenOf::Not => {
                let expr = match self.parse_prec(Precedence::Prefix) {
                    Ok(x) => x,
                    Err(e) => return Err(e),
                };
                let s = span.cover(expr.span);
                Ok(Expr::new(ExprKind::UnaryOp { op: UnaryOp::Not, expr: Box::new(expr) }, s))
            },
            TokenOf::LParen => {
                let mut e = match self.parse_expr() {
                    Ok(x) => x,
                    Err(e) => return Err(e),
                };
                match self.consume(TokenOf::RParen, "expected ')' to close group") {
                    Ok(_) => {},
                    Err(e) => return Err(e),
                }
                e.span = span.cover(self.previous_span());
                Ok(e)
            },
            TokenOf::LBracket => self.parse_list(span),
            TokenOf::LBrace => self.parse_map(span),
            TokenOf::Fn => self.parse_lambda(),
            TokenOf::Spawn => {
                let expr = match self.parse_expr() {
                    Ok(x) => x,
                    Err(e) => return Err(e),
                };
                let s = span.cover(expr.span);
                Ok(Expr::new(ExprKind::Spawn(Box::new(expr)), s))
            },
            other => Err(ParseError::unexpected_token(text("an expression"), Self::actual_name(&other), span)),
        }
    }

    /// The body of a function or lambda: `= expr` (then a statement end when
    /// `needs_end`) or a colon and an indented block.
    #[verifier::spinoff_prover]
    fn parse_fn_body(&mut self, needs_end: bool, end_ctx: &str, colon_ctx: &str) -> (r: Result<Vec<Stmt>, ParseError>)
        requires
            old(self).wf(),
        ensures
            final(self).wf(),
            final(self).ts() == old(self).ts(),
            final(self).lim() == old(self).lim(),
            final(self).pos() == old(self).pos() + sp_fn_body(old(self).ts(), old(self).lim(), old(self).pos(), old(self).errs(), needs_end, end_ctx@, colon_ctx@).0,
            final(self).errs() == sp_fn_body(old(self).ts(), old(self).lim(), old(self).pos(), old(self).errs(), needs_end, end_ctx@, colon_ctx@).1,
            res_stmts(r) == sp_fn_body(old(self).ts(), old(self).lim(), old(self).pos(), old(self).errs(), needs_end, end_ctx@, colon_ctx@).2,
        decreases old(self).lim(), rem(old(self).ts(), old(self).pos()), 33nat, 0int,
    {
        reveal(sp_fn_body);
        if self.match_token(TokenOf::Assign) {
            let expr = match self.parse_expr() {
                Ok(x) => x,
                Err(e) => return Err(e),
            };
            if needs_end {
                match self.expect_stmt_end(end_ctx) {
                    Ok(_) => {},
                    Err(e) => return Err(e),
                }
            }
            let span = expr.span;
            assert(view_opt_expr(Some(expr)) == Some(expr@));
            let s = Stmt::new(StmtKind::Return(Some(expr)), span);
            let mut body: Vec<Stmt> = Vec::new();
            body.push(s);
            proof {
                crate::parser::ast_ops::lemma_stmts_push(Seq::<Stmt>::empty(), s);
                assert(Seq::<Stmt>::empty().push(s) =~= body@);
                assert(view_stmts(Seq::<Stmt>::empty()) =~= Seq::<SStmt>::empty());
            }
            Ok(body)
        } else {
            match self.consume(TokenOf::Colon, colon_ctx) {
                Ok(_) => {},
                Err(e) => return Err(e),
            }
            self.consume_newlines();
            self.parse_block()
        }
    }

    /// A function definition, after `fn`.
    #[verifier::spinoff_prover]
    fn parse_fn_def(&mut self) -> (r: Result<Stmt, ParseError>)
        requires
            old(self).wf(),
        ensures
            final(self).wf(),
            final(self).ts() == old(self).ts(),
            final(self).lim() == old(self).lim(),
            final(self).pos() == old(self).pos() + sp_fn_def(old(self).ts(), old(self).lim(), old(self).pos(), old(self).errs()).0,
            final(self).errs() == sp_fn_def(old(self).ts(), old(self).lim(), old(self).pos(), old(self).errs()).1,
            res_stmt(r) == sp_fn_def(old(self).ts(), old(self).lim(), old(self).pos(), old(self).errs()).2,
        decreases old(self).lim(), rem(old(self).ts(), old(self).pos()), 50nat, 0int,
    {
        reveal(sp_fn_def);
        let fn_span = self.previous_span();
        let (name, name_span) = match self.consume_ident("expected function name") {
            Ok(x) => x,
            Err(e) => return Err(e),
        };
        match self.consume(TokenOf::LParen, "expected '(' after function name") {
            Ok(_) => {},
            Err(e) => return Err(e),
        }
        let params = match self.parse_param_list() {
            Ok(x) => x,
            Err(e) => return Err(e),
        };
        match self.consume(TokenOf::RParen, "expected ')' after parameters") {
            Ok(_) => {},
            Err(e) => return Err(e),
        }
        let ret_ty = match self.parse_ret_ty() {
            Ok(x) => x,
            Err(e) => return Err(e),
        };
        let body = match self.parse_fn_body(true, "after single-expression function", "expected ':' before function body") {
            Ok(x) => x,
            Err(e) => return Err(e),
        };
        proof {
            lemma_view_stmts(body@);
        }
        let n = body.len();
        let end_span = if n > 0 { body[n - 1].span } else { name_span };
        let span = fn_span.cover(end_span);
        Ok(Stmt::new(StmtKind::FnDef(FnDef { name, name_span, params, ret_ty, ret_ty_span: None, body }), span))
    }

    /// A lambda, after `fn`.
    #[verifier::spinoff_prover]
    fn parse_lambda(&mut self) -> (r: Result<Expr, ParseError>)
        requires
            old(self).wf(),
        ensures
            final(self).wf(),
            final(self).ts() == old(self).ts(),
            final(self).lim() == old(self).lim(),
            final(self).pos() == old(self).pos() + sp_lambda(old(self).ts(), old(self).lim(), old(self).pos(), old(self).errs()).0,
            final(self).errs() == sp_lambda(old(self).ts(), old(self).lim(), old(self).pos(), old(self).errs()).1,
            res_expr(r) == sp_lambda(old(self).ts(), old(self).lim(), old(self).pos(), old(self).errs()).2,
        decreases old(self).lim(), rem(old(self).ts(), old(self).pos()), 50nat, 0int,
    {
        reveal(sp_lambda);
        let fn_span = self.previous_span();
        match self.consume(TokenOf::LParen, "expected '(' for lambda parameters") {
            Ok(_) => {},
            Err(e) => return Err(e),
        }
        let params = match self.parse_param_list() {
            Ok(x) => x,
            Err(e) => return Err(e),
        };
        match self.consume(TokenOf::RParen, "expected ')' after lambda parameters") {
            Ok(_) => {},
            Err(e) => return Err(e),
        }
        let ret_ty = match self.parse_ret_ty() {
            Ok(x) => x,
            Err(e) => return Err(e),
        };
        let body = match self.parse_fn_body(false, "", "expected ':' before lambda body") {
            Ok(x) => x,
            Err(e) => return Err(e),
        };
        proof {
            lemma_view_stmts(body@);
        }
        let n = body.len();
        let end_span = if n > 0 { body[n - 1].span } else { fn_span };
        let span = fn_span.cover(end_span);
        Ok(Expr::new(ExprKind::Lambda { params, ret_ty, ret_ty_span: None, body }, span))
    }

    /// An indented block of statements.
    #[verifier::spinoff_prover]
    fn parse_block(&mut self) -> (r: Result<Vec<Stmt>, ParseError>)
        requires
            old(self).wf(),
        ensures
            final(self).wf(),
            final(self).ts() == old(self).ts(),
            final(self).lim() == old(self).lim(),
            final(self).pos() == old(self).pos() + sp_block(old(self).ts(), old(self).lim(), old(self).pos(), old(self).errs()).0,
            final(self).errs() == sp_block(old(self).ts(), old(self).lim(), old(self).pos(), old(self).errs()).1,
            res_stmts(r) == sp_block(old(self).ts(), old(self).lim(), old(self).pos(), old(self).errs()).2,
        decreases old(self).lim(), rem(old(self).ts(), old(self).pos()), 46nat, 0int,
    {
        reveal(sp_block);
        match self.consume(TokenOf::Indent, "expected indented block") {
            Ok(_) => {},
            Err(e) => return Err(e),
        }
        let stmts = self.parse_block_items();
        match self.consume(TokenOf::Dedent, "expected dedent after block") {
            Ok(_) => {},
            Err(e) => return Err(e),
        }
        Ok(stmts)
    }

    /// The statements of a block, up to its dedent; a statement that fails is
    /// recorded and skipped.
    #[verifier::spinoff_prover]
    fn parse_block_items(&mut self) -> (r: Vec<Stmt>)
        requires
            old(self).wf(),
        ensures
            final(self).wf(),
            final(self).ts() == old(self).ts(),
            final(self).lim() == old(self).lim(),
            final(self).pos() == old(self).pos() + sp_block_loop(old(self).ts(), old(self).lim(), old(self).pos(), old(self).errs(), seq![]).0,
            final(self).errs() == sp_block_loop(old(self).ts(), old(self).lim(), old(self).pos(), old(self).errs(), seq![]).1,
            vstmts(r) == sp_block_loop(old(self).ts(), old(self).lim(), old(self).pos(), old(self).errs(), seq![]).2,
        decreases old(self).lim(), rem(old(self).ts(), old(self).pos()), 45nat, 0int,
    {
        reveal(sp_block_loop);
        let mut stmts: Vec<Stmt> = Vec::new();
        assert(view_stmts(stmts@) =~= Seq::<SStmt>::empty());
        loop
            invariant
                self.wf(),
                self.ts() == old(self).ts(),
                self.lim() == old(self).lim(),
                old(self).pos() <= self.pos(),
                sp_block_loop(old(self).ts(), old(self).lim(), old(self).pos(), old(self).errs(), seq![]) == ({
                    let (b, e, r2) = sp_block_loop(self.ts(), self.lim(), self.pos(), self.errs(), view_stmts(stmts@));
                    (((self.pos() - old(self).pos()) + b) as nat, e, r2)
                }),
            decreases self.tokens@.len() - self.current,
        {
            reveal(sp_block_loop);
            if self.check(&TokenOf::Dedent) || self.is_at_end() {
                return stmts;
            }
            if self.match_token(TokenOf::Newline) {
                continue;
            }
            let before = self.current;
            match self.parse_statement() {
                Ok(s) => {
                    let ghost prev = stmts@;
                    stmts.push(s);
                    proof {
                        crate::parser::ast_ops::lemma_stmts_push(prev, s);
                    }
                },
                Err(err) => {
                    self.record(err);
                    self.synchronize();
                },
            }
            if self.current == before {
                self.advance();
            }
        }
    }

    /// A colon, newlines, and an indented block.
    #[verifier::spinoff_prover]
    fn parse_colon_block(&mut self, ctx: &str) -> (r: Result<Vec<Stmt>, ParseError>)
        requires
            old(self).wf(),
        ensures
            final(self).wf(),
            final(self).ts() == old(self).ts(),
            final(self).lim() == old(self).lim(),
            final(self).pos() == old(self).pos() + sp_colon_block(old(self).ts(), old(self).lim(), old(self).pos(), old(self).errs(), ctx@).0,
            final(self).errs() == sp_colon_block(old(self).ts(), old(self).lim(), old(self).pos(), old(self).errs(), ctx@).1,
            res_stmts(r) == sp_colon_block(old(self).ts(), old(self).lim(), old(self).pos(), old(self).errs(), ctx@).2,
        decreases old(self).lim(), rem(old(self).ts(), old(self).pos()), 47nat, 0int,
    {
        reveal(sp_colon_block);
        match self.consume(TokenOf::Colon, ctx) {
            Ok(_) => {},
            Err(e) => return Err(e),
        }
        self.consume_newlines();
        self.parse_block()
    }

    /// An `if` statement, after `if`.
    #[verifier::spinoff_prover]
    #[verifier::rlimit(100)]
    fn parse_if(&mut self) -> (r: Result<Stmt, ParseError>)
        requires
            old(self).wf(),
        ensures
            final(self).wf(),
            final(self).ts() == old(self).ts(),
            final(self).lim() == old(self).lim(),
            final(self).pos() == old(self).pos() + sp_if(old(self).ts(), old(self).lim(), old(self).pos(), old(self).errs()).0,
            final(self).errs() == sp_if(old(self).ts(), old(self).lim(), old(self).pos(), old(self).errs()).1,
            res_stmt(r) == sp_if(old(self).ts(), old(self).lim(), old(self).pos(), old(self).errs()).2,
        decreases old(self).lim(), rem(old(self).ts(), old(self).pos()), 50nat, 0int,
    {
        reveal(sp_if);
        let if_span = self.previous_span();
        let cond = match self.parse_expr() {
            Ok(x) => x,
            Err(e) => return Err(e),
        };
        let then = match self.parse_colon_block("expected ':' after if condition") {
            Ok(x) => x,
            Err(e) => return Err(e),
        };
        let elifs = match self.parse_elifs() {
            Ok(x) => x,
            Err(e) => return Err(e),
        };
        let else_ = if self.match_token(TokenOf::Else) {
            match self.parse_colon_block("expected ':' after else") {
                Ok(b) => Some(b),
                Err(e) => return Err(e),
            }
        } else {
            None
        };
        proof {
            lemma_view_stmts(then@);
            lemma_view_elifs(elifs@);
            if else_ is Some {
                lemma_view_stmts(else_->Some_0@);
            }
            if elifs@.len() > 0 {
                lemma_view_stmts(elifs@.last().1@);
            }
        }
        let end_span = match &else_ {
            Some(b) if b.len() > 0 => b[b.len() - 1].span,
            _ => {
                let ne = elifs.len();
                if ne > 0 && elifs[ne - 1].1.len() > 0 {
                    let nb = elifs[ne - 1].1.len();
                    elifs[ne - 1].1[nb - 1].span
                } else if then.len() > 0 {
                    then[then.len() - 1].span
                } else {
                    cond.span
                }
            },
        };
        let span = if_span.cover(end_span);
        Ok(Stmt::new(StmtKind::If { cond, then, elifs, else_ }, span))
    }

    /// The `elif` branches of an `if`.
    #[verifier::spinoff_prover]
    #[verifier::rlimit(100)]
    fn parse_elifs(&mut self) -> (r: Result<Vec<(Expr, Vec<Stmt>)>, ParseError>)
        requires
            old(self).wf(),
        ensures
            final(self).wf(),
            final(self).ts() == old(self).ts(),
            final(self).lim() == old(self).lim(),
            final(self).pos() == old(self).pos() + sp_elifs(old(self).ts(), old(self).lim(), old(self).pos(), old(self).errs(), seq![]).0,
            final(self).errs() == sp_elifs(old(self).ts(), old(self).lim(), old(self).pos(), old(self).errs(), seq![]).1,
            res_elifs(r) == sp_elifs(old(self).ts(), old(self).lim(), old(self).pos(), old(self).errs(), seq![]).2,
        decreases old(self).lim(), rem(old(self).ts(), old(self).pos()), 49nat, 0int,
    {
        reveal(sp_elifs);
        let mut elifs: Vec<(Expr, Vec<Stmt>)> = Vec::new();
        assert(view_elifs(elifs@) =~= Seq::<(SExpr, Seq<SStmt>)>::empty());
        loop
            invariant
                self.wf(),
                self.ts() == old(self).ts(),
                self.lim() == old(self).lim(),
                old(self).pos() <= self.pos(),
                sp_elifs(old(self).ts(), old(self).lim(), old(self).pos(), old(self).errs(), seq![]) == ({
                    let (b, e, r2) = sp_elifs(self.ts(), self.lim(), self.pos(), self.errs(), view_elifs(elifs@));
                    (((self.pos() - old(self).pos()) + b) as nat, e, r2)
                }),
            decreases self.tokens@.len() - self.current,
        {
            reveal(sp_elifs);
            if !self.match_token(TokenOf::Elif) {
                return Ok(elifs);
            }
            let c = match self.parse_expr() {
                Ok(x) => x,
                Err(e) => return Err(e),
            };
            let block = match self.parse_colon_block("expected ':' after elif condition") {
                Ok(x) => x,
                Err(e) => return Err(e),
            };
            let ghost prev = elifs@;
            let item = (c, block);
            elifs.push(item);
            proof {
                crate::parser::ast_ops::lemma_elifs_push(prev, item);
            }
        }
    }

    /// A `while` loop, after `while`.
    #[verifier::spinoff_prover]
    #[verifier::rlimit(100)]
    fn parse_while(&mut self) -> (r: Result<Stmt, ParseError>)
        requires
            old(self).wf(),
        ensures
            final(self).wf(),
            final(self).ts() == old(self).ts(),
            final(self).lim() == old(self).lim(),
            final(self).pos() == old(self).pos() + sp_while(old(self).ts(), old(self).lim(), old(self).pos(), old(self).errs()).0,
            final(self).errs() == sp_while(old(self).ts(), old(self).lim(), old(self).pos(), old(self).errs()).1,
            res_stmt(r) == sp_while(old(self).ts(), old(self).lim(), old(self).pos(), old(self).errs()).2,
        decreases old(self).lim(), rem(old(self).ts(), old(self).pos()), 50nat, 0int,
    {
        reveal(sp_while);
        let while_span = self.previous_span();
        let cond = match self.parse_expr() {
            Ok(x) => x,
            Err(e) => return Err(e),
        };
        let body = match self.parse_colon_block("expected ':' after while condition") {
            Ok(x) => x,
            Err(e) => return Err(e),
        };
        proof {
            lemma_view_stmts(body@);
        }
        let end_span = if body.len() > 0 { body[body.len() - 1].span } else { cond.span };
        let span = while_span.cover(end_span);
        Ok(Stmt::new(StmtKind::While { cond, body }, span))
    }

    /// A `for` loop, after `for`: `for x in iter [step s]:` or `for k, v in iter:`.
    #[verifier::spinoff_prover]
    #[verifier::rlimit(100)]
    fn parse_for(&mut self) -> (r: Result<Stmt, ParseError>)
        requires
            old(self).wf(),
        ensures
            final(self).wf(),
            final(self).ts() == old(self).ts(),
            final(self).lim() == old(self).lim(),
            final(self).pos() == old(self).pos() + sp_for(old(self).ts(), old(self).lim(), old(self).pos(), old(self).errs()).0,
            final(self).errs() == sp_for(old(self).ts(), old(self).lim(), old(self).pos(), old(self).errs()).1,
            res_stmt(r) == sp_for(old(self).ts(), old(self).lim(), old(self).pos(), old(self).errs()).2,
        decreases old(self).lim(), rem(old(self).ts(), old(self).pos()), 50nat, 0int,
    {
        reveal(sp_for);
        let for_span = self.previous_span();
        let (var1, var1_span) = match self.consume_ident("expected loop variable") {
            Ok(x) => x,
            Err(e) => return Err(e),
        };
        if self.match_token(TokenOf::Comma) {
            let (var2, var2_span) = match self.consume_ident("expected second loop variable") {
                Ok(x) => x,
                Err(e) => return Err(e),
            };
            match self.consume(TokenOf::In, "expected 'in' in for-kv loop") {
                Ok(_) => {},
                Err(e) => return Err(e),
            }
            let iter = match self.parse_expr() {
                Ok(x) => x,
                Err(e) => return Err(e),
            };
            if self.check(&TokenOf::Step) {
                return Err(ParseError::new(text("'step' is not supported in key-value for loops"), self.peek_span()));
            }
            let body = match self.parse_colon_block("expected ':' after for-kv expression") {
                Ok(x) => x,
                Err(e) => return Err(e),
            };
            proof {
                lemma_view_stmts(body@);
            }
            let end_span = if body.len() > 0 { body[body.len() - 1].span } else { iter.span };
            let span = for_span.cover(end_span);
            return Ok(Stmt::new(
                StmtKind::ForKV { key: var1, key_span: var1_span, val: var2, val_span: var2_span, iter, body },
                span,
            ));
        }
        match self.consume(TokenOf::In, "expected 'in' in for loop") {
            Ok(_) => {},
            Err(e) => return Err(e),
        }
        let iter = match self.parse_expr() {
            Ok(x) => x,
            Err(e) => return Err(e),
        };
        let step = if self.match_token(TokenOf::Step) {
            match self.parse_expr() {
                Ok(x) => Some(x),
                Err(e) => return Err(e),
            }
        } else {
            None
        };
        let body = match self.parse_colon_block("expected ':' after for-in expression") {
            Ok(x) => x,
            Err(e) => return Err(e),
        };
        proof {
            lemma_view_stmts(body@);
        }
        let end_span = if body.len() > 0 { body[body.len() - 1].span } else { iter.span };
        let span = for_span.cover(end_span);
        assert(view_opt_expr(step) == match step {
            Some(x) => Some(x@),
            None => None,
        });
        Ok(Stmt::new(StmtKind::For { var: var1, var_span: var1_span, iter, step, body }, span))
    }

    /// A string literal, split into text and `{expr}` parts (`{{` and `}}`
    /// stand for braces); each expression is lexed and parsed on its own and
    /// reported at the span of the literal.
    #[verifier::spinoff_prover]
    fn parse_interpolated_string(&self, raw: &str, span: Span) -> (r: Result<Expr, ParseError>)
        requires
            self.wf(),
        ensures
            res_expr(r) == sp_interp(self.lim(), raw@, span),
        decreases self.lim(), 0int, 1nat, 0int,
    {
        reveal(sp_interp);
        reveal(sp_interp_loop);
        let chars = str_chars(raw);
        let n = chars.len();
        let mut has_brace = false;
        let mut k: usize = 0;
        while k < n
            invariant
                n == chars@.len(),
                k <= n,
                has_brace == (exists|j: int| 0 <= j < k && chars@[j] == '{'),
            decreases n - k,
        {
            if chars[k] == '{' {
                has_brace = true;
            }
            k = k + 1;
        }
        assert(has_brace == raw@.contains('{'));
        if !has_brace {
            return Ok(Expr::new(ExprKind::Str(raw.to_owned()), span));
        }
        let ghost lim = self.lim();
        let mut parts: Vec<InterpPart> = Vec::new();
        let mut buf = String::new();
        let mut i: usize = 0;
        assert(view_parts(parts@) =~= Seq::<SInterpPart>::empty());
        assert(buf@ =~= Seq::<char>::empty());
        while i < n
            invariant
                self.wf(),
                lim == self.lim(),
                n == chars@.len(),
                chars@ == raw@,
                i <= n,
                sp_interp_loop(lim, raw@, 0, seq![], seq![], span) == sp_interp_loop(lim, raw@, i as int, view_parts(parts@), buf@, span),
            decreases n - i,
        {
            reveal(sp_interp_loop);
            reveal(sp_interp);
            let ghost parts0 = view_parts(parts@);
            let ghost buf0 = buf@;
            let c = chars[i];
            if c == '{' && i + 1 < n && chars[i + 1] == '{' {
                string_push(&mut buf, '{');
                i = i + 2;
            } else if c == '{' {
                if !buf.as_str().is_empty() {
                    let mut taken = String::new();
                    core::mem::swap(&mut taken, &mut buf);
                    let ghost prev = parts@;
                    let part = InterpPart::Str(taken);
                    parts.push(part);
                    proof {
                        crate::parser::ast_ops::lemma_parts_push(prev, part);
                    }
                }
                assert(buf@ =~= Seq::<char>::empty());
                match Self::consume_interpolation(&chars, i + 1) {
                    None => {
                        let err = ParseError::new(text("unterminated string interpolation"), span);
                        assert(sp_interp_loop(lim, raw@, i as int, parts0, buf0, span) == Err::<Seq<SInterpPart>, PErr>(err@));
                        return Err(err);
                    },
                    Some((src, src_len, j)) => {
                        proof {
                            lemma_scan_interp(raw@, i + 1, seq![], 0, None);
                        }
                        let mut expr = match Self::parse_inline_expr(src.as_str(), src_len, self.limit) {
                            Ok(e) => e,
                            Err(err) => return Err(ParseError::new(err.message, span)),
                        };
                        Self::overwrite_expr_span(&mut expr, span);
                        let ghost prev = parts@;
                        let part = InterpPart::Expr(expr);
                        parts.push(part);
                        proof {
                            crate::parser::ast_ops::lemma_parts_push(prev, part);
                        }
                        i = j;
                    },
                }
            } else if c == '}' && i + 1 < n && chars[i + 1] == '}' {
                string_push(&mut buf, '}');
                i = i + 2;
            } else {
                string_push(&mut buf, c);
                i = i + 1;
            }
        }
        if !buf.as_str().is_empty() {
            let ghost prev = parts@;
            let part = InterpPart::Str(buf);
            parts.push(part);
            proof {
                crate::parser::ast_ops::lemma_parts_push(prev, part);
            }
        }
        proof {
            crate::parser::ast::lemma_view_parts(parts@);
        }
        if parts.len() == 1 {
            match &parts[0] {
                InterpPart::Str(s) => return Ok(Expr::new(ExprKind::Str(s.clone()), span)),
                _ => {},
            }
        }
        Ok(Expr::new(ExprKind::Interp(parts), span))
    }

    /// The source of the interpolation that starts at `k`, its length, and the
    /// position after its closing brace.
    #[verifier::spinoff_prover]
    fn consume_interpolation(chars: &Vec<char>, k: usize) -> (r: Option<(String, usize, usize)>)
        requires
            k <= chars@.len(),
        ensures
            match r {
                Some((s, len, j)) => scan_interp(chars@, k as int, seq![], 0, None) == Some((s@, j as int))
                    && len == s@.len(),
                None => scan_interp(chars@, k as int, seq![], 0, None) is None,
            },
    {
        let n = chars.len();
        let mut out = String::new();
        let mut out_len: usize = 0;
        let mut depth: usize = 0;
        let mut in_str: Option<char> = None;
        let mut idx = k;
        assert(out@ =~= Seq::<char>::empty());
        while idx < n
            invariant
                n == chars@.len(),
                k <= idx <= n,
                out_len == out@.len(),
                out_len <= idx,
                depth <= idx,
                scan_interp(chars@, k as int, seq![], 0, None) == scan_interp(chars@, idx as int, out@, depth as nat, in_str),
            decreases n - idx,
        {
            let c = chars[idx];
            match in_str {
                Some(q) => {
                    string_push(&mut out, c);
                    out_len = out_len + 1;
                    if c == '\\' {
                        if idx + 1 < n {
                            string_push(&mut out, chars[idx + 1]);
                            out_len = out_len + 1;
                            idx = idx + 2;
                        } else {
                            idx = idx + 1;
                        }
                    } else {
                        if c == q {
                            in_str = None;
                        }
                        idx = idx + 1;
                    }
                },
                None => {
                    if c == '"' || c == '\'' {
                        in_str = Some(c);
                        string_push(&mut out, c);
                        out_len = out_len + 1;
                    } else if c == '{' {
                        depth = depth + 1;
                        string_push(&mut out, c);
                        out_len = out_len + 1;
                    } else if c == '}' && depth > 0 {
                        depth = depth - 1;
                        string_push(&mut out, c);
                        out_len = out_len + 1;
                    } else if c == '}' {
                        return Some((out, out_len, idx + 1));
                    } else {
                        string_push(&mut out, c);
                        out_len = out_len + 1;
                    }
                    idx = idx + 1;
                },
            }
        }
        None
    }

    /// The expression of one interpolation, lexed and parsed on its own; it
    /// must take the whole text.
    #[verifier::spinoff_prover]
    #[verifier::rlimit(100)]
    fn parse_inline_expr(src: &str, src_len: usize, limit: usize) -> (r: Result<Expr, ParseError>)
        requires
            src@.len() == src_len,
            limit <= TEXT_LIMIT,
        ensures
            res_expr(r) == sp_inline(limit as nat, src@),
        decreases limit as nat, 0int, 0nat, 0int,
    {
        reveal(sp_inline);
        if src_len >= limit {
            return Err(ParseError::new(text("string interpolation nested too deeply"), Span::new(0, 0)));
        }
        let mut lexer = Lexer::new(src);
        let tokens = match lexer.tokenize() {
            Ok(t) => t,
            Err(e) => return Err(ParseError::new(e.message(), e.span)),
        };
        let mut p = Parser::new(tokens);
        p.limit = src_len;
        let expr = match p.parse_expr() {
            Ok(x) => x,
            Err(e) => return Err(e),
        };
        let at_newline = match p.peek() {
            TokenOf::Newline => true,
            _ => false,
        };
        if !p.is_at_end() && !at_newline {
            return Err(ParseError::unexpected_token(text("the end of this interpolation"), Self::actual_name(p.peek()), p.peek_span()));
        }
        Ok(expr)
    }

    /// All statements, with every recoverable error: a statement that fails is
    /// recorded and skipped up to the next statement boundary. The errors are
    /// handed over.
    #[verifier::spinoff_prover]
    pub fn parse_partial(&mut self) -> (r: (Vec<Stmt>, Vec<ParseError>))
        requires
            old(self).wf(),
        ensures
            final(self).wf(),
            final(self).ts() == old(self).ts(),
            final(self).errs() == Seq::<PErr>::empty(),
            final(self).lim() == old(self).lim(),
            at_end(final(self).ts(), final(self).pos()),
            view_stmts(r.0@) == sp_partial(old(self).ts(), old(self).lim(), old(self).pos(), old(self).errs(), seq![]).0,
            view_errs(r.1@) == sp_partial(old(self).ts(), old(self).lim(), old(self).pos(), old(self).errs(), seq![]).1,
    {
        reveal(sp_partial);
        let mut stmts: Vec<Stmt> = Vec::new();
        assert(view_stmts(stmts@) =~= Seq::<SStmt>::empty());
        while !self.is_at_end()
            invariant
                self.wf(),
                self.ts() == old(self).ts(),
                self.lim() == old(self).lim(),
                sp_partial(old(self).ts(), old(self).lim(), old(self).pos(), old(self).errs(), seq![])
                    == sp_partial(self.ts(), self.lim(), self.pos(), self.errs(), view_stmts(stmts@)),
            decreases self.tokens@.len() - self.current,
        {
            reveal(sp_partial);
            if self.match_token(TokenOf::Newline) {
                continue;
            }
            proof {
                lemma_stmt_advances(self.ts(), self.lim(), self.pos(), self.errs());
            }
            match self.parse_statement() {
                Ok(s) => {
                    let ghost prev = stmts@;
                    stmts.push(s);
                    proof {
                        crate::parser::ast_ops::lemma_stmts_push(prev, s);
                    }
                },
                Err(err) => {
                    self.record(err);
                    self.synchronize();
                },
            }
        }
        let mut errors: Vec<ParseError> = Vec::new();
        core::mem::swap(&mut errors, &mut self.errors);
        assert(self.errs() =~= Seq::<PErr>::empty());
        (stmts, errors)
    }

    /// All statements if there was no error, else every error.
    #[verifier::spinoff_prover]
    pub fn parse(&mut self) -> (r: Result<Vec<Stmt>, Vec<ParseError>>)
        requires
            old(self).wf(),
        ensures
            final(self).wf(),
            ({
                let (ss, es) = sp_partial(old(self).ts(), old(self).lim(), old(self).pos(), old(self).errs(), seq![]);
                match r {
                    Ok(v) => es.len() == 0 && view_stmts(v@) == ss,
                    Err(errs) => es.len() > 0 && view_errs(errs@) == es,
                }
            }),
    {
        let (stmts, errors) = self.parse_partial();
        if errors.len() == 0 {
            Ok(stmts)
        } else {
            Err(errors)
        }
    }
}

/// Once the cursor is at `Eof`, a partial parse finds nothing more: a second
/// `parse_partial` gives no statements and no errors.
pub proof fn law_partial_parse_at_end(ts: PTokens, lim: nat, p: int)
    requires
        0 <= p < ts.len(),
        at_end(ts, p),
    ensures
        sp_partial(ts, lim, p, seq![], seq![]) == (Seq::<SStmt>::empty(), Seq::<PErr>::empty()),
{
    reveal(sp_partial);
}

} // verus!
