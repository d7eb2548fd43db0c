//! Static type inference over the syntax tree.
//!
//! The checker walks statements in order, binding names to types in a
//! scope, and stops at the first rejected construct.  Its meaning is given
//! by the spec functions `expr_type`, `stmt_effect` and `block_effect`.

use vstd::prelude::*;
use crate::error::{SemanticError, SemErr};
use crate::lexer::token::Span;
use crate::parser::ast::{
    Expr, ExprKind, Stmt, StmtKind, Param, CallArg, BinOp, UnaryOp, SExpr, SExprKind, SStmt,
    SStmtKind, SParam, SCallArg, view_args, view_stmt, view_stmts, view_elifs, view_params, view_expr,
    view_exprs, view_pairs, view_opt_type, view_opt_expr, view_opt_string, lemma_view_args, lemma_view_stmts,
    lemma_view_elifs, lemma_view_exprs, lemma_view_pairs,
};
use crate::types::ty::{Type, SpecType, view_type, view_types, lemma_view_types, assignable, render, types_eq};
use crate::text::{usize_text, decimal};

verus! {

/// A scope of the checker, as a map from names to types.
pub type TypeMap = Map<Seq<char>, SpecType>;

// ── Scopes ─────────────────────────────────────────────────────────────────

/// Static types of the names of one scope, with the scope that encloses it.
pub struct TypeEnv {
    vars: Vec<(String, Type)>,
    parent: Option<Box<TypeEnv>>,
}

/// The map made by a list of bindings, a later binding of a name replacing an earlier one.
pub open spec fn bindings_map(vs: Seq<(String, Type)>) -> TypeMap
    decreases vs.len(),
{
    if vs.len() == 0 {
        Map::empty()
    } else {
        bindings_map(vs.drop_last()).insert(vs.last().0@, vs.last().1@)
    }
}

proof fn lemma_bindings_found(vs: Seq<(String, Type)>, i: int, k: Seq<char>)
    requires
        0 <= i < vs.len(),
        vs[i].0@ == k,
        forall|j: int| i < j < vs.len() ==> vs[j].0@ != k,
    ensures
        bindings_map(vs).contains_key(k),
        bindings_map(vs)[k] == vs[i].1@,
    decreases vs.len(),
{
    if i < vs.len() - 1 {
        lemma_bindings_found(vs.drop_last(), i, k);
    }
}

proof fn lemma_bindings_absent(vs: Seq<(String, Type)>, k: Seq<char>)
    requires
        forall|j: int| 0 <= j < vs.len() ==> vs[j].0@ != k,
    ensures
        !bindings_map(vs).contains_key(k),
    decreases vs.len(),
{
    if vs.len() > 0 {
        lemma_bindings_absent(vs.drop_last(), k);
    }
}

impl TypeEnv {
    /// Every name visible from this scope, an inner binding hiding an outer one.
    pub closed spec fn scope(self) -> TypeMap
        decreases self,
    {
        let outer = match self.parent {
            Some(p) => (*p).scope(),
            None => Map::empty(),
        };
        outer.union_prefer_right(bindings_map(self.vars@))
    }
}

impl TypeEnv {
    /// How many scopes enclose this one.
    pub closed spec fn depth(self) -> nat
        decreases self,
    {
        match self.parent {
            Some(p) => (*p).depth() + 1,
            None => 0,
        }
    }

    /// The names bound in this scope itself.
    pub closed spec fn own(self) -> TypeMap {
        bindings_map(self.vars@)
    }

    /// What the enclosing scope sees, if there is one.
    pub closed spec fn outer(self) -> Option<TypeMap> {
        match self.parent {
            Some(p) => Some((*p).scope()),
            None => None,
        }
    }
}

impl View for TypeEnv {
    type V = TypeMap;

    closed spec fn view(&self) -> TypeMap {
        self.scope()
    }
}

impl TypeEnv {
    /// An empty scope with no enclosing scope.
    pub fn new() -> (r: TypeEnv)
        ensures
            r@ == Map::<Seq<char>, SpecType>::empty(),
            r.depth() == 0,
            r.own() == Map::<Seq<char>, SpecType>::empty(),
            r.outer() is None,
    {
        let r = TypeEnv { vars: Vec::new(), parent: None };
        assert(r@ =~= Map::<Seq<char>, SpecType>::empty());
        r
    }

    /// An empty scope nested in `parent`: it sees what `parent` sees.
    pub fn extend(parent: TypeEnv) -> (r: TypeEnv)
        ensures
            r@ == parent@,
            r.depth() == parent.depth() + 1,
            r.own() == Map::<Seq<char>, SpecType>::empty(),
            r.outer() == Some(parent@),
    {
        let r = TypeEnv { vars: Vec::new(), parent: Some(Box::new(parent)) };
        assert(r@ =~= parent@);
        assert(r.own() =~= Map::<Seq<char>, SpecType>::empty());
        r
    }

    /// The type bound to `name`, looked up from the innermost scope outwards.
    pub fn get(&self, name: &str) -> (r: Option<Type>)
        ensures
            match r {
                Some(t) => self@.contains_key(name@) && t@ == self@[name@],
                None => !self@.contains_key(name@),
            },
        decreases self,
    {
        let key = name.to_owned();
        let mut i = self.vars.len();
        while i > 0
            invariant
                i <= self.vars@.len(),
                key@ == name@,
                forall|j: int| i <= j < self.vars@.len() ==> self.vars@[j].0@ != key@,
            decreases i,
        {
            i = i - 1;
            if self.vars[i].0 == key {
                proof {
                    lemma_bindings_found(self.vars@, i as int, key@);
                }
                return Some(self.vars[i].1.dup());
            }
        }
        proof {
            lemma_bindings_absent(self.vars@, key@);
        }
        match &self.parent {
            Some(p) => p.get(name),
            None => None,
        }
    }

    /// Binds `name` to `ty` in this scope, replacing an earlier binding of it.
    pub fn set(&mut self, name: String, ty: Type)
        ensures
            final(self)@ == old(self)@.insert(name@, ty@),
            final(self).own() == old(self).own().insert(name@, ty@),
            final(self).outer() == old(self).outer(),
            final(self).depth() == old(self).depth(),
    {
        let ghost old_vars = self.vars@;
        self.vars.push((name, ty));
        assert(self.vars@.drop_last() =~= old_vars);
        assert(self@ =~= old(self)@.insert(name@, ty@));
    }
}

// ── Meaning of the checker ─────────────────────────────────────────────────

pub open spec fn is_dynamic(t: SpecType) -> bool {
    t is Any || t is Unknown
}

pub open spec fn is_arith(op: BinOp) -> bool {
    op is Plus || op is Minus || op is Star || op is Slash || op is Percent
}

pub open spec fn is_comparison(op: BinOp) -> bool {
    op is EqEq || op is BangEq || op is Lt || op is Gt || op is LtEq || op is GtEq
}

/// The type of an arithmetic operation on operands of types `l` and `r`, if it is allowed.
pub open spec fn arith_type(op: BinOp, l: SpecType, r: SpecType) -> Option<SpecType> {
    if is_dynamic(l) || is_dynamic(r) {
        Some(SpecType::Any)
    } else if l is Int && r is Int {
        Some(SpecType::Int)
    } else if (l is Int || l is Float) && (r is Int || r is Float) {
        Some(SpecType::Float)
    } else if l is Str && r is Str && op is Plus {
        Some(SpecType::Str)
    } else {
        None
    }
}

/// Whether a condition of type `t` is accepted: booleans, dynamic types and unions of them.
pub open spec fn truthy(t: SpecType) -> bool
    decreases t,
{
    match t {
        SpecType::Bool => true,
        SpecType::Any => true,
        SpecType::Unknown => true,
        SpecType::Union(vs) => all_truthy(vs),
        _ => false,
    }
}

pub open spec fn all_truthy(vs: Seq<SpecType>) -> bool
    decreases vs,
{
    if vs.len() == 0 {
        true
    } else {
        all_truthy(vs.drop_last()) && truthy(vs.last())
    }
}

/// The type of an element got by indexing or iterating a value of type `t`.
pub open spec fn item_type(t: SpecType) -> SpecType {
    match t {
        SpecType::List(a) => *a,
        SpecType::Dict(_, v) => *v,
        SpecType::Str => SpecType::Str,
        _ => SpecType::Any,
    }
}

/// The declared type of each parameter, `any` where none is written.
pub open spec fn param_types(ps: Seq<SParam>) -> Seq<SpecType> {
    ps.map_values(|p: SParam| opt_type_or(p.ty, SpecType::Any))
}

pub open spec fn opt_type_or(t: Option<SpecType>, d: SpecType) -> SpecType {
    match t {
        Some(t) => t,
        None => d,
    }
}

pub open spec fn type_mismatch_err(
    expected: Seq<char>,
    found: Seq<char>,
    expected_span: Span,
    found_span: Span,
    help: Seq<char>,
) -> SemErr {
    SemErr::TypeMismatch { expected, found, expected_span, found_span, help: Some(help) }
}

pub open spec fn generic_err(message: Seq<char>, span: Span, label: Seq<char>, help: Seq<char>) -> SemErr {
    SemErr::Generic { message, span, label, help: Some(help) }
}

pub open spec fn arith_err(span: Span, l: SpecType, r: SpecType) -> SemErr {
    generic_err(
        "invalid operands for arithmetic"@,
        span,
        "left operand is `"@ + render(l) + "` and right operand is `"@ + render(r) + "`"@,
        "use numeric operands, or `str + str` for concatenation"@,
    )
}

pub open spec fn negation_err(span: Span, t: SpecType) -> SemErr {
    type_mismatch_err(
        "int or float"@,
        render(t),
        span,
        span,
        "apply unary `-` only to numeric values"@,
    )
}

pub open spec fn arity_err(span: Span, expected: nat, found: nat) -> SemErr {
    generic_err(
        "argument count mismatch: expected "@ + decimal(expected) + ", found "@ + decimal(found),
        span,
        "call arity does not match the function signature"@,
        "pass the expected number of arguments"@,
    )
}

pub open spec fn not_callable_err(span: Span, t: SpecType) -> SemErr {
    generic_err(
        "expression of type `"@ + render(t) + "` is not callable"@,
        span,
        "this expression does not evaluate to a function or constructor"@,
        "call a function value, or remove the trailing `(...)`"@,
    )
}

pub open spec fn condition_err(span: Span, t: SpecType) -> SemErr {
    type_mismatch_err("bool"@, render(t), span, span, "use a boolean expression in this condition"@)
}

pub open spec fn annotation_err(expected: SpecType, found: SpecType, target_span: Span, value_span: Span) -> SemErr {
    type_mismatch_err(
        render(expected),
        render(found),
        target_span,
        value_span,
        "change the annotation or make the assigned value match it"@,
    )
}

/// Whether a callee with parameter types `ps` rejects a call with `n` arguments:
/// a single `any` parameter accepts any number of them.
pub open spec fn arity_mismatch(ps: Seq<SpecType>, n: nat) -> bool {
    ps.len() != n && !(ps.len() == 1 && ps[0] is Any)
}

/// The type of `e` in scope `env`, or the first error found in it.
pub open spec fn expr_type(env: TypeMap, e: SExpr) -> Result<SpecType, SemErr>
    decreases e,
{
    match e.kind {
        SExprKind::Int(_) => Ok(SpecType::Int),
        SExprKind::Float(_) => Ok(SpecType::Float),
        SExprKind::Str(_) => Ok(SpecType::Str),
        SExprKind::Bool(_) => Ok(SpecType::Bool),
        SExprKind::Null => Ok(SpecType::Null),
        SExprKind::Ident(n) => if env.contains_key(n) {
            Ok(env[n])
        } else {
            Err(SemErr::UndefinedVariable { name: n, span: e.span })
        },
        SExprKind::BinOp { op, left, right } => match expr_type(env, *left) {
            Err(x) => Err(x),
            Ok(l) => match expr_type(env, *right) {
                Err(x) => Err(x),
                Ok(r) => if is_arith(op) {
                    match arith_type(op, l, r) {
                        Some(t) => Ok(t),
                        None => Err(arith_err(e.span, l, r)),
                    }
                } else if is_comparison(op) {
                    Ok(SpecType::Bool)
                } else {
                    Ok(SpecType::Any)
                },
            },
        },
        SExprKind::UnaryOp { op, expr } => match expr_type(env, *expr) {
            Err(x) => Err(x),
            Ok(t) => if op is Not {
                Ok(SpecType::Bool)
            } else if t is Int || t is Float || is_dynamic(t) {
                Ok(t)
            } else {
                Err(negation_err(expr.span, t))
            },
        },
        SExprKind::List(items) => if items.len() == 0 {
            Ok(SpecType::List(Box::new(SpecType::Any)))
        } else {
            match expr_type(env, items[0]) {
                Err(x) => Err(x),
                Ok(t) => Ok(SpecType::List(Box::new(t))),
            }
        },
        SExprKind::Dict(pairs) => if pairs.len() == 0 {
            Ok(SpecType::Dict(Box::new(SpecType::Any), Box::new(SpecType::Any)))
        } else {
            match expr_type(env, pairs[0].0) {
                Err(x) => Err(x),
                Ok(k) => match expr_type(env, pairs[0].1) {
                    Err(x) => Err(x),
                    Ok(v) => Ok(SpecType::Dict(Box::new(k), Box::new(v))),
                },
            }
        },
        SExprKind::Call { callee, args } => match expr_type(env, *callee) {
            Err(x) => Err(x),
            Ok(c) => match c {
                SpecType::Fn(ps, ret) => if arity_mismatch(ps, args.len()) {
                    Err(arity_err(e.span, ps.len(), args.len()))
                } else {
                    match args_check(env, args) {
                        Some(x) => Err(x),
                        None => Ok(*ret),
                    }
                },
                SpecType::Struct(n) => match args_check(env, args) {
                    Some(x) => Err(x),
                    None => Ok(SpecType::Struct(n)),
                },
                SpecType::Any => match args_check(env, args) {
                    Some(x) => Err(x),
                    None => Ok(SpecType::Any),
                },
                SpecType::Unknown => match args_check(env, args) {
                    Some(x) => Err(x),
                    None => Ok(SpecType::Any),
                },
                _ => Err(not_callable_err(callee.span, c)),
            },
        },
        SExprKind::Field { .. } => Ok(SpecType::Any),
        SExprKind::Index { obj, .. } => match expr_type(env, *obj) {
            Err(x) => Err(x),
            Ok(t) => Ok(item_type(t)),
        },
        SExprKind::Lambda { params, ret_ty, .. } => Ok(
            SpecType::Fn(param_types(params), Box::new(opt_type_or(ret_ty, SpecType::Any))),
        ),
        SExprKind::Interp(_) => Ok(SpecType::Str),
        SExprKind::Ternary { then, else_, .. } => match expr_type(env, *then) {
            Err(x) => Err(x),
            Ok(a) => match expr_type(env, *else_) {
                Err(x) => Err(x),
                Ok(b) => if a == b {
                    Ok(a)
                } else {
                    Ok(SpecType::Union(seq![a, b]))
                },
            },
        },
        SExprKind::Propagate(inner) => expr_type(env, *inner),
        SExprKind::Spawn(_) => Ok(SpecType::Null),
    }
}

/// The first error among the argument expressions, checked left to right.
pub open spec fn args_check(env: TypeMap, args: Seq<SCallArg>) -> Option<SemErr>
    decreases args,
{
    if args.len() == 0 {
        None
    } else {
        match expr_type(env, args[0].expr) {
            Err(x) => Some(x),
            Ok(_) => args_check(env, args.drop_first()),
        }
    }
}

/// The error of a condition `c`: its own, or that it is not boolean.
pub open spec fn cond_check(env: TypeMap, c: SExpr) -> Option<SemErr> {
    match expr_type(env, c) {
        Err(x) => Some(x),
        Ok(t) => if truthy(t) {
            None
        } else {
            Some(condition_err(c.span, t))
        },
    }
}

/// The error of an expression, if any; its type is dropped.
pub open spec fn expr_check(env: TypeMap, e: SExpr) -> Option<SemErr> {
    match expr_type(env, e) {
        Err(x) => Some(x),
        Ok(_) => None,
    }
}

/// The scope after checking `s`, and the error that stopped it.
pub open spec fn stmt_effect(env: TypeMap, s: SStmt) -> (TypeMap, Option<SemErr>)
    decreases s,
{
    match s.kind {
        SStmtKind::Assign { target, target_span, ty, value, .. } => match expr_type(env, value) {
            Err(x) => (env, Some(x)),
            Ok(t) => match ty {
                Some(expected) => if assignable(t, expected) {
                    (env.insert(target, expected), None)
                } else {
                    (env, Some(annotation_err(expected, t, target_span, value.span)))
                },
                None => (env.insert(target, t), None),
            },
        },
        SStmtKind::FieldAssign { obj, value, .. } => match expr_check(env, obj) {
            Some(x) => (env, Some(x)),
            None => (env, expr_check(env, value)),
        },
        SStmtKind::IndexAssign { obj, idx, value } => match expr_check(env, obj) {
            Some(x) => (env, Some(x)),
            None => match expr_check(env, idx) {
                Some(x) => (env, Some(x)),
                None => (env, expr_check(env, value)),
            },
        },
        SStmtKind::Return(e) => match e {
            Some(e) => (env, expr_check(env, e)),
            None => (env, None),
        },
        SStmtKind::If { cond, then, elifs, else_ } => match cond_check(env, cond) {
            Some(x) => (env, Some(x)),
            None => {
                let (e1, r1) = block_effect(env, then);
                if r1 is Some {
                    (e1, r1)
                } else {
                    let (e2, r2) = elifs_effect(e1, elifs);
                    if r2 is Some {
                        (e2, r2)
                    } else {
                        match else_ {
                            Some(b) => block_effect(e2, b),
                            None => (e2, None),
                        }
                    }
                }
            },
        },
        SStmtKind::For { var, iter, body, .. } => match expr_type(env, iter) {
            Err(x) => (env, Some(x)),
            Ok(t) => block_effect(env.insert(var, item_type(t)), body),
        },
        SStmtKind::ForKV { key, val, iter, body, .. } => match expr_type(env, iter) {
            Err(x) => (env, Some(x)),
            Ok(t) => if t is Dict {
                block_effect(env.insert(key, SpecType::Str).insert(val, item_type(t)), body)
            } else {
                block_effect(env.insert(key, SpecType::Any).insert(val, SpecType::Any), body)
            },
        },
        SStmtKind::While { cond, body } => match cond_check(env, cond) {
            Some(x) => (env, Some(x)),
            None => block_effect(env, body),
        },
        SStmtKind::Break => (env, None),
        SStmtKind::Continue => (env, None),
        SStmtKind::Expr(e) => (env, expr_check(env, e)),
        SStmtKind::Load { alias, .. } => (env.insert(alias, SpecType::Any), None),
        SStmtKind::FnDef(f) => (
            env.insert(
                f.name,
                SpecType::Fn(param_types(f.params), Box::new(opt_type_or(f.ret_ty, SpecType::Null))),
            ),
            None,
        ),
        SStmtKind::ClsDef(c) => (env.insert(c.name, SpecType::Struct(c.name)), None),
        SStmtKind::Export(inner) => stmt_effect(env, *inner),
    }
}

/// The scope after checking `ss` in order, stopping at the first error.
pub open spec fn block_effect(env: TypeMap, ss: Seq<SStmt>) -> (TypeMap, Option<SemErr>)
    decreases ss,
{
    if ss.len() == 0 {
        (env, None)
    } else {
        let (e1, r1) = stmt_effect(env, ss[0]);
        if r1 is Some {
            (e1, r1)
        } else {
            block_effect(e1, ss.drop_first())
        }
    }
}

/// The scope after checking `elif` branches in order: each condition, then its body.
pub open spec fn elifs_effect(env: TypeMap, es: Seq<(SExpr, Seq<SStmt>)>) -> (TypeMap, Option<SemErr>)
    decreases es,
{
    if es.len() == 0 {
        (env, None)
    } else {
        match cond_check(env, es[0].0) {
            Some(x) => (env, Some(x)),
            None => {
                let (e1, r1) = block_effect(env, es[0].1);
                if r1 is Some {
                    (e1, r1)
                } else {
                    elifs_effect(e1, es.drop_first())
                }
            },
        }
    }
}

/// The types of the built-in functions.
pub open spec fn with_builtins(env: TypeMap) -> TypeMap {
    let one_any = seq![SpecType::Any];
    env.insert("out"@, SpecType::Fn(one_any, Box::new(SpecType::Null)))
        .insert("in"@, SpecType::Fn(one_any, Box::new(SpecType::Str)))
        .insert("input"@, SpecType::Fn(one_any, Box::new(SpecType::Str)))
        .insert("len"@, SpecType::Fn(one_any, Box::new(SpecType::Int)))
        .insert("to_int"@, SpecType::Fn(one_any, Box::new(SpecType::Int)))
        .insert("index_of"@, SpecType::Fn(seq![SpecType::Any, SpecType::Any], Box::new(SpecType::Int)))
        .insert("error"@, SpecType::Fn(one_any, Box::new(SpecType::Error(Box::new(SpecType::Any)))))
}

pub open spec fn view_type_result(r: Result<Type, SemanticError>) -> Result<SpecType, SemErr> {
    match r {
        Ok(t) => Ok(t@),
        Err(e) => Err(e@),
    }
}

pub open spec fn view_err(r: Option<SemanticError>) -> Option<SemErr> {
    match r {
        Some(e) => Some(e@),
        None => None,
    }
}

pub open spec fn view_unit_result(r: Result<(), SemanticError>) -> Option<SemErr> {
    match r {
        Ok(_) => None,
        Err(e) => Some(e@),
    }
}

// ── The checker ────────────────────────────────────────────────────────────

/// The type checker: a scope that grows as statements are checked.
pub struct Inferencer {
    env: TypeEnv,
}

impl View for Inferencer {
    type V = TypeMap;

    closed spec fn view(&self) -> TypeMap {
        self.env@
    }
}

/// A string holding the characters of `s`.
fn text(s: &str) -> (r: String)
    ensures
        r@ == s@,
{
    s.to_owned()
}

impl Inferencer {
    /// A checker whose scope holds the built-in functions.
    pub fn new() -> (r: Inferencer)
        ensures
            r@ == with_builtins(Map::empty()),
    {
        let mut env = TypeEnv::new();
        Self::install_builtins(&mut env);
        Inferencer { env }
    }

    /// Binds the built-in functions in `env`.
    pub fn install_builtins(env: &mut TypeEnv)
        ensures
            final(env)@ == with_builtins(old(env)@),
    {
        let ghost e0 = env@;
        env.set(text("out"), Self::unary_builtin(Type::Null));
        env.set(text("in"), Self::unary_builtin(Type::Str));
        env.set(text("input"), Self::unary_builtin(Type::Str));
        env.set(text("len"), Self::unary_builtin(Type::Int));
        env.set(text("to_int"), Self::unary_builtin(Type::Int));
        let mut a2: Vec<Type> = Vec::new();
        a2.push(Type::Any);
        a2.push(Type::Any);
        assert(view_types(a2@) =~= seq![SpecType::Any, SpecType::Any]) by {
            lemma_view_types(a2@);
        }
        let index_of = Type::Fn(a2, Box::new(Type::Int));
        assert(index_of@ == SpecType::Fn(seq![SpecType::Any, SpecType::Any], Box::new(SpecType::Int)));
        env.set(text("index_of"), index_of);
        let err = Type::Error(Box::new(Type::Any));
        assert(err@ == SpecType::Error(Box::new(SpecType::Any)));
        env.set(text("error"), Self::unary_builtin(err));
        assert(env@ =~= with_builtins(old(env)@));
    }

    /// The type of a built-in function of one argument of any type.
    fn unary_builtin(ret: Type) -> (r: Type)
        ensures
            r@ == SpecType::Fn(seq![SpecType::Any], Box::new(ret@)),
    {
        let mut ps: Vec<Type> = Vec::new();
        ps.push(Type::Any);
        assert(view_types(ps@) =~= seq![SpecType::Any]) by {
            lemma_view_types(ps@);
        }
        Type::Fn(ps, Box::new(ret))
    }

    /// Whether a condition of type `ty` is accepted.
    pub fn is_truthy_type(ty: &Type) -> (r: bool)
        ensures
            r == truthy(ty@),
        decreases ty,
    {
        match ty {
            Type::Bool => true,
            Type::Any => true,
            Type::Unknown => true,
            Type::Union(vs) => {
                proof {
                    lemma_view_types(vs@);
                }
                let ghost s = view_types(vs@);
                let mut i: usize = 0;
                let mut all = true;
                while i < vs.len()
                    invariant
                        i <= vs@.len(),
                        s == view_types(vs@),
                        s.len() == vs@.len(),
                        forall|j: int| 0 <= j < vs@.len() ==> #[trigger] s[j] == view_type(vs@[j]),
                        all == all_truthy(s.take(i as int)),
                        decreases_to!(ty => vs),
                    decreases vs@.len() - i,
                {
                    assert(s.take(i + 1).drop_last() =~= s.take(i as int));
                    proof {
                        assert(decreases_to!(vs@ => vs@[i as int]));
                    }
                    let b = Self::is_truthy_type(&vs[i]);
                    all = all && b;
                    i = i + 1;
                }
                assert(s.take(vs@.len() as int) =~= s);
                all
            },
            _ => false,
        }
    }

    /// The type of an element got by indexing or iterating a value of type `ty`.
    pub fn list_item_type(ty: &Type) -> (r: Type)
        ensures
            r@ == item_type(ty@),
    {
        match ty {
            Type::List(item) => item.dup(),
            Type::Dict(_, value) => value.dup(),
            Type::Str => Type::Str,
            _ => Type::Any,
        }
    }

    /// A type-mismatch error.
    pub fn type_mismatch(
        expected: String,
        found: String,
        expected_span: Span,
        found_span: Span,
        help: Option<String>,
    ) -> (r: SemanticError)
        ensures
            r@ == (SemErr::TypeMismatch {
                expected: expected@,
                found: found@,
                expected_span,
                found_span,
                help: crate::error::view_opt_text(help),
            }),
    {
        SemanticError::TypeMismatch { expected, found, expected_span, found_span, help }
    }

    /// Any other error, with its message, label and hint.
    pub fn generic_error(message: String, span: Span, label: String, help: Option<String>) -> (r:
        SemanticError)
        ensures
            r@ == (SemErr::Generic {
                message: message@,
                span,
                label: label@,
                help: crate::error::view_opt_text(help),
            }),
    {
        SemanticError::Generic { message, span, label, help }
    }

    /// The declared type of each parameter, `any` where none is written.
    fn param_types(params: &Vec<Param>) -> (r: Vec<Type>)
        ensures
            view_types(r@) == param_types(view_params(params@)),
    {
        let mut out: Vec<Type> = Vec::new();
        let mut i: usize = 0;
        while i < params.len()
            invariant
                i <= params@.len(),
                out@.len() == i,
                forall|j: int|
                    0 <= j < i ==> view_type(#[trigger] out@[j]) == opt_type_or(
                        view_opt_type(params@[j].ty),
                        SpecType::Any,
                    ),
            decreases params@.len() - i,
        {
            let t = match &params[i].ty {
                Some(t) => t.dup(),
                None => Type::Any,
            };
            out.push(t);
            i = i + 1;
        }
        proof {
            lemma_view_types(out@);
            assert(view_types(out@) =~= param_types(view_params(params@)));
        }
        out
    }

    /// Whether the type is `int`, `float`, `any` or `unknown`.
    fn numeric_or_dynamic(t: &Type) -> (r: bool)
        ensures
            r == (t@ is Int || t@ is Float || is_dynamic(t@)),
    {
        match t {
            Type::Int => true,
            Type::Float => true,
            Type::Any => true,
            Type::Unknown => true,
            _ => false,
        }
    }

    /// The type of an arithmetic operation, if it is allowed.
    fn arith_result(op: BinOp, l: &Type, r: &Type) -> (t: Option<Type>)
        ensures
            view_opt_type(t) == arith_type(op, l@, r@),
    {
        let l_dyn = match l {
            Type::Any => true,
            Type::Unknown => true,
            _ => false,
        };
        let r_dyn = match r {
            Type::Any => true,
            Type::Unknown => true,
            _ => false,
        };
        if l_dyn || r_dyn {
            return Some(Type::Any);
        }
        match (l, r) {
            (Type::Int, Type::Int) => Some(Type::Int),
            (Type::Int, Type::Float) => Some(Type::Float),
            (Type::Float, Type::Int) => Some(Type::Float),
            (Type::Float, Type::Float) => Some(Type::Float),
            (Type::Str, Type::Str) => match op {
                BinOp::Plus => Some(Type::Str),
                _ => None,
            },
            _ => None,
        }
    }

    /// The type of `expr` in the current scope, or the first error found in it.
    pub fn infer_expr(&self, expr: &Expr) -> (r: Result<Type, SemanticError>)
        ensures
            view_type_result(r) == expr_type(self@, expr@),
        decreases expr,
    {
        match &expr.kind {
            ExprKind::Int(_) => Ok(Type::Int),
            ExprKind::Float(_) => Ok(Type::Float),
            ExprKind::Str(_) => Ok(Type::Str),
            ExprKind::Bool(_) => Ok(Type::Bool),
            ExprKind::Null => Ok(Type::Null),
            ExprKind::Ident(name) => match self.env.get(name.as_str()) {
                Some(t) => Ok(t),
                None => Err(SemanticError::UndefinedVariable { name: name.clone(), span: expr.span }),
            },
            ExprKind::BinOp { op, left, right } => {
                let l = match self.infer_expr(&**left) {
                    Ok(t) => t,
                    Err(e) => return Err(e),
                };
                let r = match self.infer_expr(&**right) {
                    Ok(t) => t,
                    Err(e) => return Err(e),
                };
                match op {
                    BinOp::EqEq | BinOp::BangEq | BinOp::Lt | BinOp::Gt | BinOp::LtEq
                    | BinOp::GtEq => Ok(Type::Bool),
                    BinOp::And | BinOp::Or | BinOp::DotDot => Ok(Type::Any),
                    _ => match Self::arith_result(*op, &l, &r) {
                        Some(t) => Ok(t),
                        None => {
                            let mut label = text("left operand is `");
                            label.append(l.to_text().as_str());
                            label.append("` and right operand is `");
                            label.append(r.to_text().as_str());
                            label.append("`");
                            let e = Self::generic_error(
                                text("invalid operands for arithmetic"),
                                expr.span,
                                label,
                                Some(text("use numeric operands, or `str + str` for concatenation")),
                            );
                            assert(e@ == arith_err(expr.span, l@, r@));
                            Err(e)
                        },
                    },
                }
            },
            ExprKind::UnaryOp { op, expr: inner } => {
                let t = match self.infer_expr(&**inner) {
                    Ok(t) => t,
                    Err(e) => return Err(e),
                };
                match op {
                    UnaryOp::Not => Ok(Type::Bool),
                    UnaryOp::Minus => if Self::numeric_or_dynamic(&t) {
                        Ok(t)
                    } else {
                        Err(
                            Self::type_mismatch(
                                text("int or float"),
                                t.to_text(),
                                inner.span,
                                inner.span,
                                Some(text("apply unary `-` only to numeric values")),
                            ),
                        )
                    },
                }
            },
            ExprKind::List(items) => {
                proof {
                    lemma_view_exprs(items@);
                }
                if items.len() == 0 {
                    let a = Type::Any;
                    assert(a@ == SpecType::Any);
                    let t = Type::List(Box::new(a));
                    assert(t@ == SpecType::List(Box::new(SpecType::Any)));
                    return Ok(t);
                }
                proof {
                    lemma_view_exprs(items@);
                    assert(decreases_to!(items => items@));
                    assert(decreases_to!(items@ => items@[0]));
                }
                match self.infer_expr(&items[0]) {
                    Ok(t) => Ok(Type::List(Box::new(t))),
                    Err(e) => Err(e),
                }
            },
            ExprKind::Dict(pairs) => {
                proof {
                    lemma_view_pairs(pairs@);
                }
                if pairs.len() == 0 {
                    let (a, b) = (Type::Any, Type::Any);
                    assert(a@ == SpecType::Any && b@ == SpecType::Any);
                    let t = Type::Dict(Box::new(a), Box::new(b));
                    assert(t@ == SpecType::Dict(Box::new(SpecType::Any), Box::new(SpecType::Any)));
                    return Ok(t);
                }
                proof {
                    lemma_view_pairs(pairs@);
                    assert(decreases_to!(pairs => pairs@));
                    assert(decreases_to!(pairs@ => pairs@[0]));
                }
                let k = match self.infer_expr(&pairs[0].0) {
                    Ok(t) => t,
                    Err(e) => return Err(e),
                };
                match self.infer_expr(&pairs[0].1) {
                    Ok(v) => Ok(Type::Dict(Box::new(k), Box::new(v))),
                    Err(e) => Err(e),
                }
            },
            ExprKind::Call { callee, args } => {
                let c = match self.infer_expr(&**callee) {
                    Ok(t) => t,
                    Err(e) => return Err(e),
                };
                proof {
                    lemma_view_args(args@);
                }
                match &c {
                    Type::Fn(ps, ret) => {
                        proof {
                            lemma_view_types(ps@);
                        }
                        if ps.len() != args.len() && !(ps.len() == 1 && ps[0].is_any()) {
                            let mut msg = text("argument count mismatch: expected ");
                            msg.append(usize_text(ps.len()).as_str());
                            msg.append(", found ");
                            msg.append(usize_text(args.len()).as_str());
                            let e = Self::generic_error(
                                msg,
                                expr.span,
                                text("call arity does not match the function signature"),
                                Some(text("pass the expected number of arguments")),
                            );
                            assert(e@ == arity_err(expr.span, ps@.len(), args@.len()));
                            return Err(e);
                        }
                        match self.infer_args(args) {
                            Some(e) => Err(e),
                            None => Ok(ret.dup()),
                        }
                    },
                    Type::Struct(n) => match self.infer_args(args) {
                        Some(e) => Err(e),
                        None => Ok(Type::Struct(n.clone())),
                    },
                    Type::Any => match self.infer_args(args) {
                        Some(e) => Err(e),
                        None => Ok(Type::Any),
                    },
                    Type::Unknown => match self.infer_args(args) {
                        Some(e) => Err(e),
                        None => Ok(Type::Any),
                    },
                    _ => {
                        let mut msg = text("expression of type `");
                        msg.append(c.to_text().as_str());
                        msg.append("` is not callable");
                        let e = Self::generic_error(
                            msg,
                            callee.span,
                            text("this expression does not evaluate to a function or constructor"),
                            Some(text("call a function value, or remove the trailing `(...)`")),
                        );
                        assert(e@ == not_callable_err(callee.span, c@));
                        Err(e)
                    },
                }
            },
            ExprKind::Field { .. } => Ok(Type::Any),
            ExprKind::Index { obj, .. } => match self.infer_expr(&**obj) {
                Ok(t) => Ok(Self::list_item_type(&t)),
                Err(e) => Err(e),
            },
            ExprKind::Lambda { params, ret_ty, .. } => {
                let ret = match ret_ty {
                    Some(t) => t.dup(),
                    None => Type::Any,
                };
                Ok(Type::Fn(Self::param_types(params), Box::new(ret)))
            },
            ExprKind::Interp(_) => Ok(Type::Str),
            ExprKind::Ternary { then, else_, .. } => {
                let a = match self.infer_expr(&**then) {
                    Ok(t) => t,
                    Err(e) => return Err(e),
                };
                let b = match self.infer_expr(&**else_) {
                    Ok(t) => t,
                    Err(e) => return Err(e),
                };
                if types_eq(&a, &b) {
                    Ok(a)
                } else {
                    let ghost (va, vb) = (a@, b@);
                    let mut both: Vec<Type> = Vec::new();
                    both.push(a);
                    both.push(b);
                    assert(view_types(both@) =~= seq![va, vb]) by {
                        lemma_view_types(both@);
                    }
                    Ok(Type::Union(both))
                }
            },
            ExprKind::Propagate(inner) => self.infer_expr(&**inner),
            ExprKind::Spawn(_) => Ok(Type::Null),
        }
    }

    /// The first error among the argument expressions, checked left to right.
    fn infer_args(&self, args: &Vec<CallArg>) -> (r: Option<SemanticError>)
        ensures
            view_err(r) == args_check(self@, view_args(args@)),
        decreases args,
    {
        proof {
            lemma_view_args(args@);
        }
        let ghost vs = view_args(args@);
        assert(vs.subrange(0, vs.len() as int) =~= vs);
        let mut i: usize = 0;
        while i < args.len()
            invariant
                i <= args@.len(),
                vs == view_args(args@),
                vs.len() == args@.len(),
                forall|j: int|
                    0 <= j < args@.len() ==> #[trigger] vs[j] == (SCallArg {
                        name: view_opt_string(args@[j].name),
                        expr: view_expr(args@[j].expr),
                    }),
                args_check(self@, vs) == args_check(self@, vs.subrange(i as int, vs.len() as int)),
                decreases_to!(args => args@),
            decreases args@.len() - i,
        {
            let ghost rest = vs.subrange(i as int, vs.len() as int);
            assert(rest.drop_first() =~= vs.subrange(i + 1, vs.len() as int));
            assert(rest[0] == vs[i as int]);
            proof {
                assert(decreases_to!(args@ => args@[i as int]));
            }
            match self.infer_expr(&args[i].expr) {
                Ok(_) => {},
                Err(e) => return Some(e),
            }
            i = i + 1;
        }
        assert(vs.subrange(i as int, vs.len() as int) =~= Seq::<SCallArg>::empty());
        None
    }

    /// The error of a condition: its own, or that its type is not boolean.
    fn check_condition(&self, cond: &Expr) -> (r: Option<SemanticError>)
        ensures
            view_err(r) == cond_check(self@, cond@),
    {
        match self.infer_expr(cond) {
            Err(e) => Some(e),
            Ok(t) => if Self::is_truthy_type(&t) {
                None
            } else {
                Some(
                    Self::type_mismatch(
                        text("bool"),
                        t.to_text(),
                        cond.span,
                        cond.span,
                        Some(text("use a boolean expression in this condition")),
                    ),
                )
            },
        }
    }

    /// The error of an expression whose type is not needed.
    fn check_expr(&self, e: &Expr) -> (r: Option<SemanticError>)
        ensures
            view_err(r) == expr_check(self@, e@),
    {
        match self.infer_expr(e) {
            Err(x) => Some(x),
            Ok(_) => None,
        }
    }

    /// Checks `stmts` in order, stopping at the first error; the scope keeps what
    /// the statements before it bound.
    pub fn infer_stmts(&mut self, stmts: &[Stmt]) -> (r: Result<(), SemanticError>)
        ensures
            (final(self)@, view_unit_result(r)) == block_effect(old(self)@, view_stmts(stmts@)),
    {
        proof {
            lemma_view_stmts(stmts@);
        }
        let ghost vs = view_stmts(stmts@);
        assert(vs.subrange(0, vs.len() as int) =~= vs);
        let mut i: usize = 0;
        while i < stmts.len()
            invariant
                i <= stmts@.len(),
                vs == view_stmts(stmts@),
                vs.len() == stmts@.len(),
                forall|j: int| 0 <= j < stmts@.len() ==> #[trigger] vs[j] == view_stmt(stmts@[j]),
                block_effect(old(self)@, vs) == block_effect(
                    self@,
                    vs.subrange(i as int, vs.len() as int),
                ),
            decreases stmts@.len() - i,
        {
            let ghost rest = vs.subrange(i as int, vs.len() as int);
            assert(rest.drop_first() =~= vs.subrange(i + 1, vs.len() as int));
            assert(rest[0] == vs[i as int]);
            match self.infer_stmt(&stmts[i]) {
                Ok(()) => {},
                Err(e) => return Err(e),
            }
            i = i + 1;
        }
        assert(vs.subrange(i as int, vs.len() as int) =~= Seq::<SStmt>::empty());
        Ok(())
    }

    /// Checks the statements of a block in order, stopping at the first error.
    fn infer_block(&mut self, body: &Vec<Stmt>) -> (r: Result<(), SemanticError>)
        ensures
            (final(self)@, view_unit_result(r)) == block_effect(old(self)@, view_stmts(body@)),
        decreases body,
    {
        proof {
            lemma_view_stmts(body@);
        }
        let ghost vs = view_stmts(body@);
        assert(vs.subrange(0, vs.len() as int) =~= vs);
        let mut i: usize = 0;
        while i < body.len()
            invariant
                i <= body@.len(),
                vs == view_stmts(body@),
                vs.len() == body@.len(),
                forall|j: int| 0 <= j < body@.len() ==> #[trigger] vs[j] == view_stmt(body@[j]),
                block_effect(old(self)@, vs) == block_effect(
                    self@,
                    vs.subrange(i as int, vs.len() as int),
                ),
                decreases_to!(body => body@),
            decreases body@.len() - i,
        {
            let ghost rest = vs.subrange(i as int, vs.len() as int);
            assert(rest.drop_first() =~= vs.subrange(i + 1, vs.len() as int));
            assert(rest[0] == vs[i as int]);
            proof {
                assert(decreases_to!(body@ => body@[i as int]));
            }
            match self.infer_stmt(&body[i]) {
                Ok(()) => {},
                Err(e) => return Err(e),
            }
            i = i + 1;
        }
        assert(vs.subrange(i as int, vs.len() as int) =~= Seq::<SStmt>::empty());
        Ok(())
    }

    /// Checks `elif` branches in order: each condition, then its body.
    fn infer_elifs(&mut self, elifs: &Vec<(Expr, Vec<Stmt>)>) -> (r: Result<(), SemanticError>)
        ensures
            (final(self)@, view_unit_result(r)) == elifs_effect(old(self)@, view_elifs(elifs@)),
        decreases elifs,
    {
        proof {
            lemma_view_elifs(elifs@);
        }
        let ghost vs = view_elifs(elifs@);
        assert(vs.subrange(0, vs.len() as int) =~= vs);
        let mut i: usize = 0;
        while i < elifs.len()
            invariant
                i <= elifs@.len(),
                vs == view_elifs(elifs@),
                vs.len() == elifs@.len(),
                forall|j: int|
                    0 <= j < elifs@.len() ==> #[trigger] vs[j] == (
                        view_expr(elifs@[j].0),
                        view_stmts(elifs@[j].1@),
                    ),
                elifs_effect(old(self)@, vs) == elifs_effect(
                    self@,
                    vs.subrange(i as int, vs.len() as int),
                ),
                decreases_to!(elifs => elifs@),
            decreases elifs@.len() - i,
        {
            let ghost rest = vs.subrange(i as int, vs.len() as int);
            assert(rest.drop_first() =~= vs.subrange(i + 1, vs.len() as int));
            assert(rest[0] == vs[i as int]);
            proof {
                assert(decreases_to!(elifs@ => elifs@[i as int]));
            }
            match self.check_condition(&elifs[i].0) {
                Some(e) => return Err(e),
                None => {},
            }
            match self.infer_block(&elifs[i].1) {
                Ok(()) => {},
                Err(e) => return Err(e),
            }
            i = i + 1;
        }
        assert(vs.subrange(i as int, vs.len() as int) =~= Seq::<(SExpr, Seq<SStmt>)>::empty());
        Ok(())
    }

    /// Checks one statement, binding what it defines.
    #[verifier::rlimit(40)]
    fn infer_stmt(&mut self, stmt: &Stmt) -> (r: Result<(), SemanticError>)
        ensures
            (final(self)@, view_unit_result(r)) == stmt_effect(old(self)@, stmt@),
        decreases stmt,
    {
        match &stmt.kind {
            StmtKind::Assign { target, target_span, ty, value, .. } => {
                let inferred = match self.infer_expr(value) {
                    Ok(t) => t,
                    Err(e) => return Err(e),
                };
                match ty {
                    Some(expected) => {
                        if !inferred.is_assignable_to(expected) {
                            return Err(
                                Self::type_mismatch(
                                    expected.to_text(),
                                    inferred.to_text(),
                                    *target_span,
                                    value.span,
                                    Some(
                                        text(
                                            "change the annotation or make the assigned value match it",
                                        ),
                                    ),
                                ),
                            );
                        }
                        self.env.set(target.clone(), expected.dup());
                    },
                    None => self.env.set(target.clone(), inferred),
                }
                Ok(())
            },
            StmtKind::FieldAssign { obj, value, .. } => {
                match self.check_expr(obj) {
                    Some(e) => return Err(e),
                    None => {},
                }
                let r = match self.check_expr(value) {
                    Some(e) => Err(e),
                    None => Ok(()),
                };
                assert(view_unit_result(r) == stmt_effect(old(self)@, stmt@).1);
                r
            },
            StmtKind::IndexAssign { obj, idx, value } => {
                match self.check_expr(obj) {
                    Some(e) => return Err(e),
                    None => {},
                }
                match self.check_expr(idx) {
                    Some(e) => return Err(e),
                    None => {},
                }
                match self.check_expr(value) {
                    Some(e) => Err(e),
                    None => Ok(()),
                }
            },
            StmtKind::Return(e) => {
                proof {
                    assert(stmt@.kind == SStmtKind::Return(view_opt_expr(*e)));
                    match e {
                        Some(x) => {
                            assert(view_opt_expr(*e) == Some(x@));
                        },
                        None => {
                            assert(view_opt_expr(*e) is None);
                        },
                    }
                }
                let r = match e {
                    Some(e) => match self.check_expr(e) {
                        Some(x) => Err(x),
                        None => Ok(()),
                    },
                    None => Ok(()),
                };
                assert(view_unit_result(r) == stmt_effect(old(self)@, stmt@).1);
                r
            },
            StmtKind::If { cond, then, elifs, else_ } => {
                match self.check_condition(cond) {
                    Some(e) => return Err(e),
                    None => {},
                }
                match self.infer_block(then) {
                    Ok(()) => {},
                    Err(e) => return Err(e),
                }
                match self.infer_elifs(elifs) {
                    Ok(()) => {},
                    Err(e) => return Err(e),
                }
                match else_ {
                    Some(body) => self.infer_block(body),
                    None => Ok(()),
                }
            },
            StmtKind::For { var, iter, body, .. } => {
                let t = match self.infer_expr(iter) {
                    Ok(t) => t,
                    Err(e) => return Err(e),
                };
                self.env.set(var.clone(), Self::list_item_type(&t));
                self.infer_block(body)
            },
            StmtKind::ForKV { key, val, iter, body, .. } => {
                let t = match self.infer_expr(iter) {
                    Ok(t) => t,
                    Err(e) => return Err(e),
                };
                match &t {
                    Type::Dict(_, _) => {
                        self.env.set(key.clone(), Type::Str);
                        self.env.set(val.clone(), Self::list_item_type(&t));
                    },
                    _ => {
                        self.env.set(key.clone(), Type::Any);
                        self.env.set(val.clone(), Type::Any);
                    },
                }
                self.infer_block(body)
            },
            StmtKind::While { cond, body } => {
                match self.check_condition(cond) {
                    Some(e) => return Err(e),
                    None => {},
                }
                self.infer_block(body)
            },
            StmtKind::Break => Ok(()),
            StmtKind::Continue => Ok(()),
            StmtKind::Expr(e) => {
                let r = match self.check_expr(e) {
                    Some(x) => Err(x),
                    None => Ok(()),
                };
                assert(view_unit_result(r) == stmt_effect(old(self)@, stmt@).1);
                r
            },
            StmtKind::Load { alias, .. } => {
                self.env.set(alias.clone(), Type::Any);
                Ok(())
            },
            StmtKind::FnDef(f) => {
                let ret = match &f.ret_ty {
                    Some(t) => t.dup(),
                    None => Type::Null,
                };
                self.env.set(f.name.clone(), Type::Fn(Self::param_types(&f.params), Box::new(ret)));
                Ok(())
            },
            StmtKind::ClsDef(c) => {
                self.env.set(c.name.clone(), Type::Struct(c.name.clone()));
                Ok(())
            },
            StmtKind::Export(inner) => self.infer_stmt(&**inner),
        }
    }
}

// ── Laws ───────────────────────────────────────────────────────────────────

/// Checking a program in two parts, the second in the scope the first left,
/// is checking it at once; an error in the first part ends the check there.
pub proof fn law_block_concat(env: TypeMap, a: Seq<SStmt>, b: Seq<SStmt>)
    ensures
        block_effect(env, a + b) == (if block_effect(env, a).1 is Some {
            block_effect(env, a)
        } else {
            block_effect(block_effect(env, a).0, b)
        }),
    decreases a.len(),
{
    if a.len() == 0 {
        assert(a + b =~= b);
    } else {
        let (e1, r1) = stmt_effect(env, a[0]);
        assert((a + b)[0] == a[0]);
        assert((a + b).drop_first() =~= a.drop_first() + b);
        if r1 is None {
            law_block_concat(e1, a.drop_first(), b);
        }
    }
}

/// After an annotated assignment is accepted, the name has the annotated type;
/// without an annotation it has the type of the value.
pub proof fn law_assign_binds(env: TypeMap, s: SStmt)
    requires
        s.kind is Assign,
        stmt_effect(env, s).1 is None,
    ensures
        s.kind matches SStmtKind::Assign { target, ty, value, .. } ==> {
            let after = stmt_effect(env, s).0;
            &&& expr_type(env, value) is Ok
            &&& after.contains_key(target)
            &&& after[target] == opt_type_or(ty, expr_type(env, value)->Ok_0)
            &&& ty is Some ==> assignable(expr_type(env, value)->Ok_0, ty->Some_0)
        },
{
}

/// Checking an expression never binds a name: only statements change the scope,
/// and a statement that only evaluates an expression leaves it as it was.
pub proof fn law_expr_stmt_keeps_scope(env: TypeMap, s: SStmt)
    requires
        s.kind is Expr || s.kind is Return || s.kind is FieldAssign || s.kind is IndexAssign
            || s.kind is Break || s.kind is Continue,
    ensures
        stmt_effect(env, s).0 == env,
{
}

/// Every type fits itself and fits `any`.
pub proof fn law_assignable_reflexive(t: SpecType, u: SpecType)
    ensures
        assignable(t, t),
        assignable(u, SpecType::Any),
{
}

/// Arithmetic on two strings: only `+` (concatenation) is allowed and gives
/// a string; `-`, `*`, `/` and `%` are rejected as invalid operands.
pub proof fn law_string_arithmetic(env: TypeMap, op: BinOp, l: SExpr, r: SExpr, span: Span)
    requires
        expr_type(env, l) == Ok::<SpecType, SemErr>(SpecType::Str),
        expr_type(env, r) == Ok::<SpecType, SemErr>(SpecType::Str),
        op is Plus || op is Minus || op is Star || op is Slash || op is Percent,
    ensures
        ({
            let e = SExpr { kind: SExprKind::BinOp { op, left: Box::new(l), right: Box::new(r) }, span };
            &&& op is Plus ==> expr_type(env, e) == Ok::<SpecType, SemErr>(SpecType::Str)
            &&& !(op is Plus) ==> (expr_type(env, e) matches Err(SemErr::Generic { message, span: s, .. })
                && message == "invalid operands for arithmetic"@ && s == span)
        }),
{
}

/// Arithmetic on two integers gives an integer, and on an integer and a float
/// (either way round) or two floats gives a float, for every arithmetic operator.
pub proof fn law_numeric_arithmetic(env: TypeMap, op: BinOp, l: SExpr, r: SExpr, span: Span)
    requires
        expr_type(env, l) is Ok,
        expr_type(env, r) is Ok,
        op is Plus || op is Minus || op is Star || op is Slash || op is Percent,
    ensures
        ({
            let e = SExpr { kind: SExprKind::BinOp { op, left: Box::new(l), right: Box::new(r) }, span };
            let (tl, tr) = (expr_type(env, l)->Ok_0, expr_type(env, r)->Ok_0);
            &&& (tl is Int && tr is Int) ==> expr_type(env, e) == Ok::<SpecType, SemErr>(SpecType::Int)
            &&& ((tl is Float && (tr is Int || tr is Float)) || (tl is Int && tr is Float))
                ==> expr_type(env, e) == Ok::<SpecType, SemErr>(SpecType::Float)
        }),
{
}

/// A comparison gives a boolean whatever its operands' types.
pub proof fn law_comparison_is_bool(env: TypeMap, op: BinOp, l: SExpr, r: SExpr, span: Span)
    requires
        expr_type(env, l) is Ok,
        expr_type(env, r) is Ok,
        op is EqEq || op is BangEq || op is Lt || op is Gt || op is LtEq || op is GtEq,
    ensures
        expr_type(env, SExpr { kind: SExprKind::BinOp { op, left: Box::new(l), right: Box::new(r) }, span })
            == Ok::<SpecType, SemErr>(SpecType::Bool),
{
}

/// `not x` is a boolean whatever `x` is; `-x` keeps the type of an integer, a
/// float or a dynamic operand, and on a string, a boolean or null it is an
/// error at the operand; arithmetic with a dynamic operand is dynamic.
pub proof fn law_unary_and_dynamic_types(env: TypeMap, x: SExpr, r: SExpr, op: BinOp, span: Span)
    requires
        expr_type(env, x) is Ok,
        expr_type(env, r) is Ok,
    ensures
        ({
            let t = expr_type(env, x)->Ok_0;
            let not_x = SExpr { kind: SExprKind::UnaryOp { op: UnaryOp::Not, expr: Box::new(x) }, span };
            let neg_x = SExpr { kind: SExprKind::UnaryOp { op: UnaryOp::Minus, expr: Box::new(x) }, span };
            let bin = SExpr { kind: SExprKind::BinOp { op, left: Box::new(x), right: Box::new(r) }, span };
            &&& expr_type(env, not_x) == Ok::<SpecType, SemErr>(SpecType::Bool)
            &&& (t is Int || t is Float || t is Any || t is Unknown) ==> expr_type(env, neg_x) == Ok::<SpecType, SemErr>(t)
            &&& (t is Str || t is Bool || t is Null) ==> (expr_type(env, neg_x) matches Err(e) && e == negation_err(x.span, t))
            &&& ((op is Plus || op is Minus || op is Star || op is Slash || op is Percent) && (t is Any || t is Unknown))
                ==> expr_type(env, bin) == Ok::<SpecType, SemErr>(SpecType::Any)
        }),
{
}

} // verus!
