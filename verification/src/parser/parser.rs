//! A recursive-descent parser with error recovery.
//!
//! Each parsing method is specified by the spec function of the same name in
//! `parser::spec`: from the tokens, the position and the errors recorded so
//! far, it gives how many tokens the method consumes, the errors recorded
//! after it, and its result.

use vstd::prelude::*;
use crate::error::{ParseError, PErr, perr_custom, perr_missing, perr_unexpected};
use crate::lexer::token::{Span, Token, TokenOf, SpecToken};
use crate::lexer::lexer::{view_toks, view_tok_span, Lexer, spec_tokenize, law_tokens_end_with_single_eof};
use crate::lexer::chars::{str_chars, string_push};
use crate::parser::ast::{
    BinOp, UnaryOp, Expr, ExprKind, Stmt, StmtKind, Param, CallArg, InterpPart, FnDef, ClsDef,
    SExpr, SStmt, SParam, SCallArg, SInterpPart, view_expr, view_parts, view_opt_expr, view_stmt, view_exprs, view_stmts, view_pairs,
    view_args, view_params, view_param, view_elifs, view_opt_type, view_opt_string,
    lemma_view_exprs, lemma_view_stmts, lemma_view_pairs, lemma_view_args, lemma_view_elifs,
};
use crate::parser::spec::{
    lemma_infix_advances, lemma_stmt_advances,
    PTokens, actual_name, assign_op, assign_target, at_end, binop_of, check, clamp, delimiter_name, expected_name, last_stmt_span, lemma_scan_interp, named_type, nth_tok, prec_level, prefix_level, prev_span, rem, respan_args, respan_elifs, respan_expr, respan_exprs, respan_pairs, respan_param, respan_params, respan_parts, respan_stmt, respan_stmts, scan_interp, sp_assign, sp_block, sp_block_loop, sp_call_args, sp_call_args_loop, sp_cls_def, sp_colon_block, sp_consume, sp_elifs, sp_expr, sp_fields, sp_finish, sp_fn_body, sp_fn_def, sp_for, sp_ident, sp_if, sp_infix, sp_inline, sp_interp, sp_interp_loop, sp_lambda, sp_list, sp_list_loop, sp_load, sp_map, sp_map_loop, sp_newlines, sp_params, sp_partial, sp_prec, sp_prec_loop, sp_prefix, sp_ret_ty, sp_return, sp_stmt, sp_stmt_end, sp_str_lit, sp_sync, sp_try_type, sp_type, sp_type_primary, sp_type_rest, sp_while, span_at, starts_statement, step, stmt_ok, tok_at, type_start, variant_name, with_eof,
};
use crate::types::ty::{Type, SpecType, view_type, view_types, lemma_view_types};

verus! {

/// The largest text length the lexer accepts, which bounds nested interpolations.
pub const TEXT_LIMIT: usize = usize::MAX / 4;

/// The parser's state: the tokens (ending with `Eof`), the position of the
/// next token, the errors recorded, and the bound on nested interpolation text.
pub struct Parser {
    pub tokens: Vec<(Token, Span)>,
    pub current: usize,
    pub errors: Vec<ParseError>,
    pub limit: usize,
}

pub open spec fn view_errs(es: Seq<ParseError>) -> Seq<PErr> {
    es.map_values(|e: ParseError| e@)
}

pub open spec fn spans_fit(ts: PTokens) -> bool {
    forall|i: int| 0 <= i < ts.len() ==> (#[trigger] ts[i]).1.fits()
}

pub open spec fn res_unit(r: Result<(), ParseError>) -> Result<(), PErr> {
    match r {
        Ok(_) => Ok(()),
        Err(e) => Err(e@),
    }
}

pub open spec fn res_span(r: Result<Span, ParseError>) -> Result<Span, PErr> {
    match r {
        Ok(s) => Ok(s),
        Err(e) => Err(e@),
    }
}

pub open spec fn res_ident(r: Result<(String, Span), ParseError>) -> Result<(Seq<char>, Span), PErr> {
    match r {
        Ok((n, s)) => Ok((n@, s)),
        Err(e) => Err(e@),
    }
}

pub open spec fn res_type(r: Result<Type, ParseError>) -> Result<SpecType, PErr> {
    match r {
        Ok(t) => Ok(t@),
        Err(e) => Err(e@),
    }
}

pub open spec fn res_types(r: Result<Vec<Type>, ParseError>) -> Result<Seq<SpecType>, PErr> {
    match r {
        Ok(t) => Ok(view_types(t@)),
        Err(e) => Err(e@),
    }
}

pub open spec fn res_opt_type(r: Result<Option<Type>, ParseError>) -> Result<Option<SpecType>, PErr> {
    match r {
        Ok(t) => Ok(view_opt_type(t)),
        Err(e) => Err(e@),
    }
}

pub open spec fn res_expr(r: Result<Expr, ParseError>) -> Result<SExpr, PErr> {
    match r {
        Ok(x) => Ok(x@),
        Err(e) => Err(e@),
    }
}

pub open spec fn res_stmt(r: Result<Stmt, ParseError>) -> Result<SStmt, PErr> {
    match r {
        Ok(x) => Ok(x@),
        Err(e) => Err(e@),
    }
}

pub open spec fn res_stmts(r: Result<Vec<Stmt>, ParseError>) -> Result<Seq<SStmt>, PErr> {
    match r {
        Ok(x) => Ok(view_stmts(x@)),
        Err(e) => Err(e@),
    }
}

pub open spec fn res_params(r: Result<Vec<Param>, ParseError>) -> Result<Seq<SParam>, PErr> {
    match r {
        Ok(x) => Ok(view_params(x@)),
        Err(e) => Err(e@),
    }
}

/// The tag of a token's variant, one number per variant.
pub open spec fn tag(t: SpecToken) -> u8 {
    match t {
        TokenOf::Int(_) => 0,
        TokenOf::Float(_) => 1,
        TokenOf::Str(_) => 2,
        TokenOf::Bool(_) => 3,
        TokenOf::Null => 4,
        TokenOf::Ident(_) => 5,
        TokenOf::Fn => 6,
        TokenOf::Cls => 7,
        TokenOf::Load => 8,
        TokenOf::From => 9,
        TokenOf::As => 10,
        TokenOf::Export => 11,
        TokenOf::Return => 12,
        TokenOf::If => 13,
        TokenOf::Elif => 14,
        TokenOf::Else => 15,
        TokenOf::For => 16,
        TokenOf::While => 17,
        TokenOf::In => 18,
        TokenOf::Break => 19,
        TokenOf::Continue => 20,
        TokenOf::Spawn => 21,
        TokenOf::Error => 22,
        TokenOf::Step => 23,
        TokenOf::Plus => 24,
        TokenOf::Minus => 25,
        TokenOf::Star => 26,
        TokenOf::Slash => 27,
        TokenOf::Percent => 28,
        TokenOf::Assign => 29,
        TokenOf::EqEq => 30,
        TokenOf::BangEq => 31,
        TokenOf::Lt => 32,
        TokenOf::Gt => 33,
        TokenOf::LtEq => 34,
        TokenOf::GtEq => 35,
        TokenOf::And => 36,
        TokenOf::Or => 37,
        TokenOf::Not => 38,
        TokenOf::Arrow => 39,
        TokenOf::Question => 40,
        TokenOf::DotDot => 41,
        TokenOf::Dot => 42,
        TokenOf::Pipe => 43,
        TokenOf::PlusEq => 44,
        TokenOf::MinusEq => 45,
        TokenOf::StarEq => 46,
        TokenOf::SlashEq => 47,
        TokenOf::Indent => 48,
        TokenOf::Dedent => 49,
        TokenOf::Newline => 50,
        TokenOf::Colon => 51,
        TokenOf::Comma => 52,
        TokenOf::LParen => 53,
        TokenOf::RParen => 54,
        TokenOf::LBrace => 55,
        TokenOf::RBrace => 56,
        TokenOf::LBracket => 57,
        TokenOf::RBracket => 58,
        TokenOf::InterpStart => 59,
        TokenOf::InterpEnd => 60,
        TokenOf::Eof => 61,
    }
}

/// A token without a payload.
pub open spec fn is_unit(t: SpecToken) -> bool {
    !(t is Int || t is Float || t is Str || t is Bool || t is Ident)
}

pub proof fn lemma_tag_unit(t: SpecToken, u: SpecToken)
    requires
        is_unit(t),
        tag(t) == tag(u),
    ensures
        t == u,
{
}

/// The tag of a token's variant.
pub fn token_tag(t: &Token) -> (r: u8)
    ensures
        r == tag(t@),
{
    match t {
        TokenOf::Int(_) => 0,
        TokenOf::Float(_) => 1,
        TokenOf::Str(_) => 2,
        TokenOf::Bool(_) => 3,
        TokenOf::Null => 4,
        TokenOf::Ident(_) => 5,
        TokenOf::Fn => 6,
        TokenOf::Cls => 7,
        TokenOf::Load => 8,
        TokenOf::From => 9,
        TokenOf::As => 10,
        TokenOf::Export => 11,
        TokenOf::Return => 12,
        TokenOf::If => 13,
        TokenOf::Elif => 14,
        TokenOf::Else => 15,
        TokenOf::For => 16,
        TokenOf::While => 17,
        TokenOf::In => 18,
        TokenOf::Break => 19,
        TokenOf::Continue => 20,
        TokenOf::Spawn => 21,
        TokenOf::Error => 22,
        TokenOf::Step => 23,
        TokenOf::Plus => 24,
        TokenOf::Minus => 25,
        TokenOf::Star => 26,
        TokenOf::Slash => 27,
        TokenOf::Percent => 28,
        TokenOf::Assign => 29,
        TokenOf::EqEq => 30,
        TokenOf::BangEq => 31,
        TokenOf::Lt => 32,
        TokenOf::Gt => 33,
        TokenOf::LtEq => 34,
        TokenOf::GtEq => 35,
        TokenOf::And => 36,
        TokenOf::Or => 37,
        TokenOf::Not => 38,
        TokenOf::Arrow => 39,
        TokenOf::Question => 40,
        TokenOf::DotDot => 41,
        TokenOf::Dot => 42,
        TokenOf::Pipe => 43,
        TokenOf::PlusEq => 44,
        TokenOf::MinusEq => 45,
        TokenOf::StarEq => 46,
        TokenOf::SlashEq => 47,
        TokenOf::Indent => 48,
        TokenOf::Dedent => 49,
        TokenOf::Newline => 50,
        TokenOf::Colon => 51,
        TokenOf::Comma => 52,
        TokenOf::LParen => 53,
        TokenOf::RParen => 54,
        TokenOf::LBrace => 55,
        TokenOf::RBrace => 56,
        TokenOf::LBracket => 57,
        TokenOf::RBracket => 58,
        TokenOf::InterpStart => 59,
        TokenOf::InterpEnd => 60,
        TokenOf::Eof => 61,
    }
}

/// The name of a token's variant.
fn variant_text(t: &Token) -> (r: &'static str)
    ensures
        r@ == variant_name(t@),
{
    match t {
        TokenOf::Int(_) => "Int",
        TokenOf::Float(_) => "Float",
        TokenOf::Str(_) => "Str",
        TokenOf::Bool(_) => "Bool",
        TokenOf::Null => "Null",
        TokenOf::Ident(_) => "Ident",
        TokenOf::Fn => "Fn",
        TokenOf::Cls => "Cls",
        TokenOf::Load => "Load",
        TokenOf::From => "From",
        TokenOf::As => "As",
        TokenOf::Export => "Export",
        TokenOf::Return => "Return",
        TokenOf::If => "If",
        TokenOf::Elif => "Elif",
        TokenOf::Else => "Else",
        TokenOf::For => "For",
        TokenOf::While => "While",
        TokenOf::In => "In",
        TokenOf::Break => "Break",
        TokenOf::Continue => "Continue",
        TokenOf::Spawn => "Spawn",
        TokenOf::Error => "Error",
        TokenOf::Step => "Step",
        TokenOf::Plus => "Plus",
        TokenOf::Minus => "Minus",
        TokenOf::Star => "Star",
        TokenOf::Slash => "Slash",
        TokenOf::Percent => "Percent",
        TokenOf::Assign => "Assign",
        TokenOf::EqEq => "EqEq",
        TokenOf::BangEq => "BangEq",
        TokenOf::Lt => "Lt",
        TokenOf::Gt => "Gt",
        TokenOf::LtEq => "LtEq",
        TokenOf::GtEq => "GtEq",
        TokenOf::And => "And",
        TokenOf::Or => "Or",
        TokenOf::Not => "Not",
        TokenOf::Arrow => "Arrow",
        TokenOf::Question => "Question",
        TokenOf::DotDot => "DotDot",
        TokenOf::Dot => "Dot",
        TokenOf::Pipe => "Pipe",
        TokenOf::PlusEq => "PlusEq",
        TokenOf::MinusEq => "MinusEq",
        TokenOf::StarEq => "StarEq",
        TokenOf::SlashEq => "SlashEq",
        TokenOf::Indent => "Indent",
        TokenOf::Dedent => "Dedent",
        TokenOf::Newline => "Newline",
        TokenOf::Colon => "Colon",
        TokenOf::Comma => "Comma",
        TokenOf::LParen => "LParen",
        TokenOf::RParen => "RParen",
        TokenOf::LBrace => "LBrace",
        TokenOf::RBrace => "RBrace",
        TokenOf::LBracket => "LBracket",
        TokenOf::RBracket => "RBracket",
        TokenOf::InterpStart => "InterpStart",
        TokenOf::InterpEnd => "InterpEnd",
        TokenOf::Eof => "Eof",
    }
}

pub fn text(s: &str) -> (r: String)
    ensures
        r@ == s@,
{
    s.to_owned()
}

/// Binding strength of infix positions.
#[derive(Debug, Clone, Copy, PartialEq, Eq, Structural)]
pub enum Precedence {
    Lowest,
    Or,
    And,
    Equals,
    LessGreater,
    Range,
    Sum,
    Product,
    Prefix,
    Call,
    Field,
    Post,
}

impl Precedence {
    pub open spec fn spec_level(self) -> nat {
        match self {
            Precedence::Lowest => 0,
            Precedence::Or => 1,
            Precedence::And => 2,
            Precedence::Equals => 3,
            Precedence::LessGreater => 4,
            Precedence::Range => 5,
            Precedence::Sum => 6,
            Precedence::Product => 7,
            Precedence::Prefix => 8,
            Precedence::Call => 9,
            Precedence::Field => 10,
            Precedence::Post => 11,
        }
    }

    /// The position of the precedence in the order from weakest to strongest.
    pub fn level(self) -> (r: u8)
        ensures
            r as nat == self.spec_level(),
    {
        match self {
            Precedence::Lowest => 0,
            Precedence::Or => 1,
            Precedence::And => 2,
            Precedence::Equals => 3,
            Precedence::LessGreater => 4,
            Precedence::Range => 5,
            Precedence::Sum => 6,
            Precedence::Product => 7,
            Precedence::Prefix => 8,
            Precedence::Call => 9,
            Precedence::Field => 10,
            Precedence::Post => 11,
        }
    }

    /// The precedence of a token at an infix position.
    pub fn of(token: &Token) -> (r: Precedence)
        ensures
            r.spec_level() == prec_level(token@),
    {
        match token {
            TokenOf::Or => Precedence::Or,
            TokenOf::And => Precedence::And,
            TokenOf::EqEq | TokenOf::BangEq => Precedence::Equals,
            TokenOf::Lt | TokenOf::Gt | TokenOf::LtEq | TokenOf::GtEq => Precedence::LessGreater,
            TokenOf::DotDot => Precedence::Range,
            TokenOf::Plus | TokenOf::Minus => Precedence::Sum,
            TokenOf::Star | TokenOf::Slash | TokenOf::Percent => Precedence::Product,
            TokenOf::LParen => Precedence::Call,
            TokenOf::Dot | TokenOf::LBracket => Precedence::Field,
            TokenOf::Question => Precedence::Post,
            _ => Precedence::Lowest,
        }
    }
}

impl BinOp {
    /// The binary operator a token stands for.
    pub fn from_token(token: &Token) -> (r: Option<BinOp>)
        ensures
            r == binop_of(token@),
    {
        match token {
            TokenOf::Plus => Some(BinOp::Plus),
            TokenOf::Minus => Some(BinOp::Minus),
            TokenOf::Star => Some(BinOp::Star),
            TokenOf::Slash => Some(BinOp::Slash),
            TokenOf::Percent => Some(BinOp::Percent),
            TokenOf::EqEq => Some(BinOp::EqEq),
            TokenOf::BangEq => Some(BinOp::BangEq),
            TokenOf::Lt => Some(BinOp::Lt),
            TokenOf::Gt => Some(BinOp::Gt),
            TokenOf::LtEq => Some(BinOp::LtEq),
            TokenOf::GtEq => Some(BinOp::GtEq),
            TokenOf::And => Some(BinOp::And),
            TokenOf::Or => Some(BinOp::Or),
            TokenOf::DotDot => Some(BinOp::DotDot),
            _ => None,
        }
    }
}

impl Parser {
    /// The tokens, as the parser sees them.
    pub open spec fn ts(&self) -> PTokens {
        view_toks(self.tokens@)
    }

    pub open spec fn pos(&self) -> int {
        self.current as int
    }

    pub open spec fn errs(&self) -> Seq<PErr> {
        view_errs(self.errors@)
    }

    pub open spec fn lim(&self) -> nat {
        self.limit as nat
    }

    /// The tokens end with `Eof`, their spans fit, and the position is on a token.
    pub open spec fn wf(&self) -> bool {
        &&& self.tokens@.len() > 0
        &&& self.ts().last().0 is Eof
        &&& self.current < self.tokens@.len()
        &&& self.limit <= TEXT_LIMIT
    }

    /// A parser over `tokens`, with an `Eof` appended unless they end with one.
    pub fn new(tokens: Vec<(Token, Span)>) -> (r: Parser)
        ensures
            r.wf(),
            r.ts() == with_eof(view_toks(tokens@)),
            r.pos() == 0,
            r.errs() == Seq::<PErr>::empty(),
            r.lim() == TEXT_LIMIT,
    {
        let mut tokens = tokens;
        let ghost t0 = view_toks(tokens@);
        let n = tokens.len();
        let ends_with_eof = n > 0 && tokens[n - 1].0.is_eof();
        if !ends_with_eof {
            let span = if n > 0 { tokens[n - 1].1 } else { Span::default() };
            proof {
                crate::lexer::lexer::lemma_view_toks_push(tokens@, (TokenOf::Eof, span));
            }
            tokens.push((TokenOf::Eof, span));
        }
        let r = Parser { tokens, current: 0, errors: Vec::new(), limit: TEXT_LIMIT };
        assert(r.errs() =~= Seq::<PErr>::empty());
        assert(r.ts() =~= with_eof(t0));
        r
    }

    pub(crate) fn peek(&self) -> (r: &Token)
        requires
            self.wf(),
        ensures
            r@ == tok_at(self.ts(), self.pos()),
    {
        &self.tokens[self.current].0
    }

    pub(crate) fn peek_span(&self) -> (r: Span)
        requires
            self.wf(),
        ensures
            r == span_at(self.ts(), self.pos()),
    {
        self.tokens[self.current].1
    }

    pub(crate) fn previous_span(&self) -> (r: Span)
        requires
            self.wf(),
        ensures
            r == prev_span(self.ts(), self.pos()),
    {
        if self.current == 0 {
            self.peek_span()
        } else {
            self.tokens[self.current - 1].1
        }
    }

    pub(crate) fn peek_nth(&self, n: usize) -> (r: &Token)
        requires
            self.wf(),
            n <= 1,
        ensures
            r@ == nth_tok(self.ts(), self.pos(), n as int),
    {
        if n < self.tokens.len() - self.current {
            &self.tokens[self.current + n].0
        } else {
            &TokenOf::Eof
        }
    }

    pub(crate) fn is_at_end(&self) -> (r: bool)
        requires
            self.wf(),
        ensures
            r == at_end(self.ts(), self.pos()),
    {
        self.peek().is_eof()
    }

    /// Consumes the current token unless it is the final `Eof`, and returns it.
    pub(crate) fn advance(&mut self) -> (r: Token)
        requires
            old(self).wf(),
        ensures
            final(self).wf(),
            final(self).ts() == old(self).ts(),
            final(self).errs() == old(self).errs(),
            final(self).lim() == old(self).lim(),
            final(self).pos() == old(self).pos() + step(old(self).ts(), old(self).pos()),
            r@ == tok_at(old(self).ts(), old(self).pos()),
    {
        let tok = self.tokens[self.current].0.dup();
        let len = self.tokens.len();
        if !self.is_at_end() {
            assert(self.current + 1 < len);
            self.current = self.current + 1;
        }
        tok
    }

    pub(crate) fn check(&self, token: &Token) -> (r: bool)
        requires
            self.wf(),
            is_unit(token@),
        ensures
            r == check(self.ts(), self.pos(), token@),
    {
        if self.is_at_end() {
            return false;
        }
        let same = token_tag(self.peek()) == token_tag(token);
        proof {
            if same {
                lemma_tag_unit(token@, tok_at(self.ts(), self.pos()));
            }
        }
        same
    }

    pub(crate) fn match_token(&mut self, token: Token) -> (r: bool)
        requires
            old(self).wf(),
            is_unit(token@),
        ensures
            final(self).wf(),
            final(self).ts() == old(self).ts(),
            final(self).errs() == old(self).errs(),
            final(self).lim() == old(self).lim(),
            r == check(old(self).ts(), old(self).pos(), token@),
            final(self).pos() == old(self).pos() + (if r { 1int } else { 0int }),
    {
        if self.check(&token) {
            self.advance();
            true
        } else {
            false
        }
    }

    /// The closing delimiter that a token is, if it is one.
    pub(crate) fn delimiter_name(token: &Token) -> (r: Option<&'static str>)
        ensures
            match r {
                Some(d) => delimiter_name(token@) == Some(d@),
                None => delimiter_name(token@) is None,
            },
    {
        match token {
            TokenOf::RParen => Some(")"),
            TokenOf::RBracket => Some("]"),
            TokenOf::RBrace => Some("}"),
            TokenOf::Colon => Some(":"),
            TokenOf::Newline => Some("newline"),
            _ => None,
        }
    }

    pub(crate) fn expected_name(token: &Token) -> (r: String)
        ensures
            r@ == expected_name(token@),
    {
        match token {
            TokenOf::Indent => text("an indented block"),
            TokenOf::Dedent => text("a dedent"),
            TokenOf::LParen => text("`(`"),
            TokenOf::RParen => text("`)`"),
            TokenOf::LBracket => text("`[`"),
            TokenOf::RBracket => text("`]`"),
            TokenOf::LBrace => text("`{`"),
            TokenOf::RBrace => text("`}`"),
            TokenOf::Colon => text("`:`"),
            TokenOf::Comma => text("`,`"),
            TokenOf::Arrow => text("`->`"),
            TokenOf::Assign => text("`=`"),
            TokenOf::Newline => text("a newline"),
            TokenOf::In => text("`in`"),
            TokenOf::Else => text("`else`"),
            other => text(variant_text(other)),
        }
    }

    pub(crate) fn actual_name(token: &Token) -> (r: String)
        ensures
            r@ == actual_name(token@),
    {
        match token {
            TokenOf::Ident(_) => text("an identifier"),
            TokenOf::Str(_) => text("a string literal"),
            TokenOf::Int(_) => text("an integer literal"),
            TokenOf::Float(_) => text("a float literal"),
            TokenOf::Bool(_) => text("a boolean literal"),
            TokenOf::Eof => text("the end of input"),
            other => Self::expected_name(other),
        }
    }

    pub(crate) fn consume(&mut self, token: Token, ctx: &str) -> (r: Result<Span, ParseError>)
        requires
            old(self).wf(),
            is_unit(token@),
        ensures
            final(self).wf(),
            final(self).ts() == old(self).ts(),
            final(self).errs() == old(self).errs(),
            final(self).lim() == old(self).lim(),
            final(self).pos() == old(self).pos() + sp_consume(old(self).ts(), old(self).pos(), token@, ctx@).0,
            res_span(r) == sp_consume(old(self).ts(), old(self).pos(), token@, ctx@).1,
    {
        if self.check(&token) {
            let span = self.peek_span();
            self.advance();
            Ok(span)
        } else {
            match Self::delimiter_name(&token) {
                Some(delimiter) => {
                    let insertion = if self.peek().is_eof() {
                        let prev = self.previous_span();
                        Span::point(prev.start.saturating_add(prev.len))
                    } else {
                        Span::point(self.peek_span().start)
                    };
                    Err(ParseError::missing_delimiter(delimiter, insertion, text(ctx)))
                },
                None => Err(
                    ParseError::unexpected_token(
                        Self::expected_name(&token),
                        Self::actual_name(self.peek()),
                        self.peek_span(),
                    ),
                ),
            }
        }
    }

    pub(crate) fn consume_ident(&mut self, ctx: &str) -> (r: Result<(String, Span), ParseError>)
        requires
            old(self).wf(),
        ensures
            final(self).wf(),
            final(self).ts() == old(self).ts(),
            final(self).errs() == old(self).errs(),
            final(self).lim() == old(self).lim(),
            final(self).pos() == old(self).pos() + sp_ident(old(self).ts(), old(self).pos(), ctx@).0,
            res_ident(r) == sp_ident(old(self).ts(), old(self).pos(), ctx@).1,
    {
        match self.peek() {
            TokenOf::Ident(name) => {
                let name = name.clone();
                let span = self.peek_span();
                self.advance();
                Ok((name, span))
            },
            _ => {
                let mut expected = text("an identifier (");
                expected.append(ctx);
                expected.append(")");
                Err(ParseError::unexpected_token(expected, Self::actual_name(self.peek()), self.peek_span()))
            },
        }
    }

    pub(crate) fn consume_str_literal(&mut self, ctx: &str) -> (r: Result<(String, Span), ParseError>)
        requires
            old(self).wf(),
        ensures
            final(self).wf(),
            final(self).ts() == old(self).ts(),
            final(self).errs() == old(self).errs(),
            final(self).lim() == old(self).lim(),
            final(self).pos() == old(self).pos() + sp_str_lit(old(self).ts(), old(self).pos(), ctx@).0,
            res_ident(r) == sp_str_lit(old(self).ts(), old(self).pos(), ctx@).1,
    {
        match self.peek() {
            TokenOf::Str(s) => {
                let s = s.clone();
                let span = self.peek_span();
                self.advance();
                Ok((s, span))
            },
            _ => {
                let mut expected = text("a string literal (");
                expected.append(ctx);
                expected.append(")");
                Err(ParseError::unexpected_token(expected, Self::actual_name(self.peek()), self.peek_span()))
            },
        }
    }

    pub(crate) fn consume_newlines(&mut self)
        requires
            old(self).wf(),
        ensures
            final(self).wf(),
            final(self).ts() == old(self).ts(),
            final(self).errs() == old(self).errs(),
            final(self).lim() == old(self).lim(),
            final(self).pos() == old(self).pos() + sp_newlines(old(self).ts(), old(self).pos()),
    {
        while self.match_token(TokenOf::Newline)
            invariant
                self.wf(),
                self.ts() == old(self).ts(),
                self.errs() == old(self).errs(),
                self.lim() == old(self).lim(),
                old(self).pos() <= self.pos(),
                sp_newlines(old(self).ts(), old(self).pos()) == (self.pos() - old(self).pos())
                    + sp_newlines(self.ts(), self.pos()),
            decreases self.tokens@.len() - self.current,
        {
        }
    }

    pub(crate) fn record(&mut self, err: ParseError)
        requires
            old(self).wf(),
        ensures
            final(self).wf(),
            final(self).ts() == old(self).ts(),
            final(self).pos() == old(self).pos(),
            final(self).lim() == old(self).lim(),
            final(self).errs() == old(self).errs().push(err@),
    {
        let ghost before = self.errors@;
        self.errors.push(err);
        assert(self.errs() =~= old(self).errs().push(err@));
    }

    /// Skips tokens up to a statement boundary.
    pub(crate) fn synchronize(&mut self)
        requires
            old(self).wf(),
        ensures
            final(self).wf(),
            final(self).ts() == old(self).ts(),
            final(self).errs() == old(self).errs(),
            final(self).lim() == old(self).lim(),
            final(self).pos() == old(self).pos() + sp_sync(old(self).ts(), old(self).pos()),
    {
        while !self.is_at_end()
            invariant
                self.wf(),
                self.ts() == old(self).ts(),
                self.errs() == old(self).errs(),
                self.lim() == old(self).lim(),
                old(self).pos() <= self.pos(),
                sp_sync(old(self).ts(), old(self).pos()) == (self.pos() - old(self).pos()) + sp_sync(
                    self.ts(),
                    self.pos(),
                ),
            decreases self.tokens@.len() - self.current,
        {
            match self.peek() {
                TokenOf::Newline => {
                    self.advance();
                    return;
                },
                TokenOf::Dedent | TokenOf::Fn | TokenOf::Cls | TokenOf::If | TokenOf::While
                | TokenOf::For | TokenOf::Return | TokenOf::Load | TokenOf::Export => return,
                _ => {
                    self.advance();
                },
            }
        }
    }

    /// The end of a statement: a newline, or nothing before a dedent or the end.
    pub(crate) fn expect_stmt_end(&mut self, ctx: &str) -> (r: Result<(), ParseError>)
        requires
            old(self).wf(),
        ensures
            final(self).wf(),
            final(self).ts() == old(self).ts(),
            final(self).errs() == old(self).errs(),
            final(self).lim() == old(self).lim(),
            final(self).pos() == old(self).pos() + sp_stmt_end(old(self).ts(), old(self).pos(), ctx@).0,
            res_unit(r) == sp_stmt_end(old(self).ts(), old(self).pos(), ctx@).1,
    {
        if self.is_at_end() || self.check(&TokenOf::Dedent) {
            return Ok(());
        }
        let mut c = text("expected newline ");
        c.append(ctx);
        match self.consume(TokenOf::Newline, c.as_str()) {
            Ok(_) => Ok(()),
            Err(e) => Err(e),
        }
    }
}

// ── Types, parameters, classes, loads ──────────────────────────────────────

/// The type named by an identifier.
fn named_type_of(name: String) -> (r: Type)
    ensures
        r@ == named_type(name@),
{
    if name == text("int") {
        Type::Int
    } else if name == text("float") {
        Type::Float
    } else if name == text("str") {
        Type::Str
    } else if name == text("bool") {
        Type::Bool
    } else if name == text("null") {
        Type::Null
    } else if name == text("any") {
        Type::Any
    } else {
        Type::Struct(name)
    }
}

pub proof fn lemma_view_params_push(ps: Seq<Param>, p: Param)
    ensures
        view_params(ps.push(p)) == view_params(ps).push(view_param(p)),
{
    assert(view_params(ps.push(p)) =~= view_params(ps).push(view_param(p)));
}

impl Parser {
    pub(crate) fn is_type_start(&self) -> (r: bool)
        requires
            self.wf(),
        ensures
            r == type_start(tok_at(self.ts(), self.pos())),
    {
        match self.peek() {
            TokenOf::Ident(_) | TokenOf::LBracket | TokenOf::LBrace | TokenOf::Error => true,
            _ => false,
        }
    }

    /// A type if one starts here and parses; otherwise nothing is consumed.
    pub(crate) fn try_parse_type(&mut self) -> (r: Result<Option<Type>, ParseError>)
        requires
            old(self).wf(),
        ensures
            final(self).wf(),
            final(self).ts() == old(self).ts(),
            final(self).errs() == old(self).errs(),
            final(self).lim() == old(self).lim(),
            final(self).pos() == old(self).pos() + sp_try_type(old(self).ts(), old(self).pos()).0,
            res_opt_type(r) == Ok::<Option<SpecType>, PErr>(sp_try_type(old(self).ts(), old(self).pos()).1),
    {
        if !self.is_type_start() {
            return Ok(None);
        }
        let checkpoint = self.current;
        match self.parse_type() {
            Ok(ty) => Ok(Some(ty)),
            Err(_) => {
                self.current = checkpoint;
                Ok(None)
            },
        }
    }

    /// One type, or a union of types separated by `|`.
    pub(crate) fn parse_type(&mut self) -> (r: Result<Type, ParseError>)
        requires
            old(self).wf(),
        ensures
            final(self).wf(),
            final(self).ts() == old(self).ts(),
            final(self).errs() == old(self).errs(),
            final(self).lim() == old(self).lim(),
            final(self).pos() == old(self).pos() + sp_type(old(self).ts(), old(self).pos()).0,
            res_type(r) == sp_type(old(self).ts(), old(self).pos()).1,
        decreases rem(old(self).ts(), old(self).pos()), 2nat,
    {
        let first = match self.parse_type_primary() {
            Ok(t) => t,
            Err(e) => return Err(e),
        };
        let ghost p1 = self.pos();
        let mut tys: Vec<Type> = Vec::new();
        tys.push(first);
        proof {
            lemma_view_types(tys@);
            assert(view_types(tys@) =~= seq![first@]);
        }
        loop
            invariant
                self.wf(),
                self.ts() == old(self).ts(),
                self.errs() == old(self).errs(),
                self.lim() == old(self).lim(),
                p1 <= self.pos(),
                old(self).pos() < p1 || old(self).pos() == p1,
                tys@.len() >= 1,
                sp_type(old(self).ts(), old(self).pos()) == ({
                    let (b, r2) = sp_type_rest(self.ts(), self.pos(), view_types(tys@));
                    let a = (self.pos() - old(self).pos()) + b;
                    match r2 {
                        Err(x) => (a as nat, Err::<SpecType, PErr>(x)),
                        Ok(ts2) => (a as nat, Ok(if ts2.len() == 1 { ts2[0] } else { SpecType::Union(ts2) })),
                    }
                }),
                old(self).pos() < old(self).ts().len(),
                p1 > old(self).pos() || sp_type_primary(old(self).ts(), old(self).pos()).0 == 0,
            decreases self.tokens@.len() - self.current,
        {
            if !self.match_token(TokenOf::Pipe) {
                proof {
                    lemma_view_types(tys@);
                }
                if tys.len() == 1 {
                    let t = tys.pop().unwrap();
                    return Ok(t);
                }
                return Ok(Type::Union(tys));
            }
            let ghost before = tys@;
            let t = match self.parse_type_primary() {
                Ok(t) => t,
                Err(e) => return Err(e),
            };
            tys.push(t);
            proof {
                lemma_view_types(before);
                lemma_view_types(tys@);
                assert(view_types(tys@) =~= view_types(before).push(t@));
            }
        }
    }

    /// A list type, a map type, or a named type.
    pub(crate) fn parse_type_primary(&mut self) -> (r: Result<Type, ParseError>)
        requires
            old(self).wf(),
        ensures
            final(self).wf(),
            final(self).ts() == old(self).ts(),
            final(self).errs() == old(self).errs(),
            final(self).lim() == old(self).lim(),
            final(self).pos() == old(self).pos() + sp_type_primary(old(self).ts(), old(self).pos()).0,
            res_type(r) == sp_type_primary(old(self).ts(), old(self).pos()).1,
        decreases rem(old(self).ts(), old(self).pos()), 0nat,
    {
        let span = self.peek_span();
        if self.match_token(TokenOf::LBracket) {
            let inner = match self.parse_type() {
                Ok(t) => t,
                Err(e) => return Err(e),
            };
            match self.consume(TokenOf::RBracket, "expected ']' in list type") {
                Ok(_) => {},
                Err(e) => return Err(e),
            }
            return Ok(Type::List(Box::new(inner)));
        }
        if self.match_token(TokenOf::LBrace) {
            let key = match self.parse_type() {
                Ok(t) => t,
                Err(e) => return Err(e),
            };
            match self.consume(TokenOf::Colon, "expected ':' in map type") {
                Ok(_) => {},
                Err(e) => return Err(e),
            }
            let val = match self.parse_type() {
                Ok(t) => t,
                Err(e) => return Err(e),
            };
            match self.consume(TokenOf::RBrace, "expected '}' in map type") {
                Ok(_) => {},
                Err(e) => return Err(e),
            }
            return Ok(Type::Dict(Box::new(key), Box::new(val)));
        }
        match self.advance() {
            TokenOf::Error => {
                let a = Type::Any;
                assert(a@ == SpecType::Any);
                Ok(Type::Error(Box::new(a)))
            },
            TokenOf::Ident(name) => Ok(named_type_of(name)),
            TokenOf::Null => Ok(Type::Null),
            other => Err(ParseError::unexpected_token(text("a type annotation"), Self::actual_name(&other), span)),
        }
    }

    /// Parameters, each a name and an optional type, separated by commas.
    pub(crate) fn parse_param_list(&mut self) -> (r: Result<Vec<Param>, ParseError>)
        requires
            old(self).wf(),
        ensures
            final(self).wf(),
            final(self).ts() == old(self).ts(),
            final(self).errs() == old(self).errs(),
            final(self).lim() == old(self).lim(),
            final(self).pos() == old(self).pos() + sp_params(old(self).ts(), old(self).pos(), seq![]).0,
            res_params(r) == sp_params(old(self).ts(), old(self).pos(), seq![]).1,
    {
        reveal(sp_params);
        let mut params: Vec<Param> = Vec::new();
        assert(view_params(params@) =~= Seq::<SParam>::empty());
        loop
            invariant
                self.wf(),
                self.ts() == old(self).ts(),
                self.errs() == old(self).errs(),
                self.lim() == old(self).lim(),
                old(self).pos() <= self.pos(),
                sp_params(old(self).ts(), old(self).pos(), seq![]) == ({
                    let (b, r2) = sp_params(self.ts(), self.pos(), view_params(params@));
                    (((self.pos() - old(self).pos()) + b) as nat, r2)
                }),
            decreases self.tokens@.len() - self.current,
        {
            reveal(sp_params);
            if self.check(&TokenOf::RParen) || self.is_at_end() {
                return Ok(params);
            }
            let (name, span) = match self.consume_ident("expected parameter name") {
                Ok(x) => x,
                Err(e) => return Err(e),
            };
            let ty = match self.try_parse_type() {
                Ok(t) => t,
                Err(e) => return Err(e),
            };
            let ghost before = params@;
            let p = Param { name, ty, span, ty_span: None };
            params.push(p);
            proof {
                lemma_view_params_push(before, p);
            }
            if !self.match_token(TokenOf::Comma) {
                return Ok(params);
            }
        }
    }

    pub(crate) fn parse_ret_ty(&mut self) -> (r: Result<Option<Type>, ParseError>)
        requires
            old(self).wf(),
        ensures
            final(self).wf(),
            final(self).ts() == old(self).ts(),
            final(self).errs() == old(self).errs(),
            final(self).lim() == old(self).lim(),
            final(self).pos() == old(self).pos() + sp_ret_ty(old(self).ts(), old(self).pos()).0,
            res_opt_type(r) == sp_ret_ty(old(self).ts(), old(self).pos()).1,
    {
        if self.match_token(TokenOf::Arrow) {
            match self.parse_type() {
                Ok(t) => Ok(Some(t)),
                Err(e) => Err(e),
            }
        } else {
            Ok(None)
        }
    }

    /// The typed fields of a class body, up to its dedent.
    pub(crate) fn parse_fields(&mut self) -> (r: Result<Vec<Param>, ParseError>)
        requires
            old(self).wf(),
        ensures
            final(self).wf(),
            final(self).ts() == old(self).ts(),
            final(self).errs() == old(self).errs(),
            final(self).lim() == old(self).lim(),
            final(self).pos() == old(self).pos() + sp_fields(old(self).ts(), old(self).pos(), seq![]).0,
            res_params(r) == sp_fields(old(self).ts(), old(self).pos(), seq![]).1,
    {
        reveal(sp_fields);
        let ghost q4 = self.pos();
        let mut fields: Vec<Param> = Vec::new();
        assert(view_params(fields@) =~= Seq::<SParam>::empty());
        loop
            invariant
                self.wf(),
                self.ts() == old(self).ts(),
                self.errs() == old(self).errs(),
                self.lim() == old(self).lim(),
                q4 == old(self).pos(),
                q4 <= self.pos(),
                sp_fields(self.ts(), q4, seq![]) == ({
                    let (b, r2) = sp_fields(self.ts(), self.pos(), view_params(fields@));
                    (((self.pos() - q4) + b) as nat, r2)
                }),
            decreases self.tokens@.len() - self.current,
        {
            reveal(sp_fields);
            if self.check(&TokenOf::Dedent) || self.is_at_end() {
                proof {
                    assert(sp_fields(self.ts(), self.pos(), view_params(fields@)) == (0nat, Ok::<Seq<SParam>, PErr>(view_params(fields@))));
                }
                return Ok(fields);
            }
            if self.match_token(TokenOf::Newline) {
                continue;
            }
            let (field_name, field_span) = match self.consume_ident("expected field name") {
                Ok(x) => x,
                Err(e) => return Err(e),
            };
            let ty = match self.try_parse_type() {
                Ok(Some(t)) => t,
                _ => {
                    let mut m = text("field '");
                    m.append(field_name.as_str());
                    m.append("' requires a type annotation");
                    return Err(ParseError::new(m, self.peek_span()));
                },
            };
            let ghost before = fields@;
            let p = Param { name: field_name, ty: Some(ty), span: field_span, ty_span: None };
            fields.push(p);
            proof {
                lemma_view_params_push(before, p);
            }
            if !self.check(&TokenOf::Dedent) {
                match self.expect_stmt_end("after class field") {
                    Ok(_) => {},
                    Err(e) => return Err(e),
                }
            }
        }
    }

    /// A class, after `cls`: a name, a colon, and an indented block of typed fields.
    pub(crate) fn parse_cls_def(&mut self) -> (r: Result<Stmt, ParseError>)
        requires
            old(self).wf(),
        ensures
            final(self).wf(),
            final(self).ts() == old(self).ts(),
            final(self).errs() == old(self).errs(),
            final(self).lim() == old(self).lim(),
            final(self).pos() == old(self).pos() + sp_cls_def(old(self).ts(), old(self).pos()).0,
            res_stmt(r) == sp_cls_def(old(self).ts(), old(self).pos()).1,
    {
        reveal(sp_cls_def);
        let cls_span = self.previous_span();
        let (name, name_span) = match self.consume_ident("expected class name") {
            Ok(x) => x,
            Err(e) => return Err(e),
        };
        match self.consume(TokenOf::Colon, "expected ':' after class name") {
            Ok(_) => {},
            Err(e) => return Err(e),
        }
        self.consume_newlines();
        match self.consume(TokenOf::Indent, "expected indented block for class body") {
            Ok(_) => {},
            Err(e) => return Err(e),
        }
        let fields = match self.parse_fields() {
            Ok(f) => f,
            Err(e) => return Err(e),
        };
        match self.consume(TokenOf::Dedent, "expected dedent after class body") {
            Ok(_) => {},
            Err(e) => return Err(e),
        }
        let n = fields.len();
        let end_span = if n > 0 { fields[n - 1].span } else { name_span };
        let cls = ClsDef { name, name_span, fields };
        Ok(Stmt::new(StmtKind::ClsDef(cls), cls_span.cover(end_span)))
    }

    /// A load, after `load`: a module name, optionally `from` and a source string.
    pub(crate) fn parse_load(&mut self) -> (r: Result<Stmt, ParseError>)
        requires
            old(self).wf(),
        ensures
            final(self).wf(),
            final(self).ts() == old(self).ts(),
            final(self).errs() == old(self).errs(),
            final(self).lim() == old(self).lim(),
            final(self).pos() == old(self).pos() + sp_load(old(self).ts(), old(self).pos()).0,
            res_stmt(r) == sp_load(old(self).ts(), old(self).pos()).1,
    {
        reveal(sp_load);
        let load_span = self.previous_span();
        let (alias, alias_span) = match self.consume_ident("expected module name in load") {
            Ok(x) => x,
            Err(e) => return Err(e),
        };
        let (source, source_span) = if self.match_token(TokenOf::From) {
            match self.consume_str_literal("expected source string after 'from'") {
                Ok((s, span)) => (s, Some(span)),
                Err(e) => return Err(e),
            }
        } else {
            (alias.clone(), None)
        };
        match self.expect_stmt_end("after load") {
            Ok(_) => {},
            Err(e) => return Err(e),
        }
        let end_span = match source_span {
            Some(s) => s,
            None => alias_span,
        };
        Ok(Stmt::new(StmtKind::Load { alias, alias_span, source, source_span }, load_span.cover(end_span)))
    }
}

/// A parser appends `Eof` only where the tokens lack it: tokens that already
/// end with `Eof` (as the lexer's always do) are read as they are, and a
/// second pass adds nothing.
pub proof fn law_lexed_tokens_read_as_is(src: Seq<char>, ts: PTokens)
    requires
        src.len() <= usize::MAX / 4,
    ensures
        spec_tokenize(src) matches Ok(lexed) ==> with_eof(lexed) == lexed,
        with_eof(with_eof(ts)) == with_eof(ts),
{
    law_tokens_end_with_single_eof(src);
}

} // verus!
