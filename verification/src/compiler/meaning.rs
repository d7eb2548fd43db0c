//! What compiling does: the state of the compiler (its chunk, registers,
//! locals and open loops) after each construct, as a function of the state
//! before.

use vstd::prelude::*;
use crate::compiler::bytecode::{Addr, CallArgDesc, ConstIdx, FunctionChunk, Instr, NameIdx, Reg};
use crate::parser::ast::{BinOp, CallArg, Expr, ExprKind, InterpPart, Param, Stmt, StmtKind, UnaryOp};
use crate::vm::value::Value;

verus! {

/// An instruction, with the lists it carries as sequences.
pub enum IV {
    Plain(Instr),
    MakeList { dst: Reg, items: Seq<Reg> },
    MakeMap { dst: Reg, pairs: Seq<(Reg, Reg)> },
    MakeStruct { dst: Reg, class: NameIdx, fields: Seq<(NameIdx, Reg)> },
    Call { dst: Option<Reg>, callee: Reg, args: Seq<CallArgDesc> },
    Spawn { callee: Reg, args: Seq<CallArgDesc> },
    Concat { dst: Reg, parts: Seq<Reg> },
}

/// The view of an instruction.
pub open spec fn iv(ins: Instr) -> IV {
    match ins {
        Instr::MakeList { dst, items } => IV::MakeList { dst, items: items@ },
        Instr::MakeMap { dst, pairs } => IV::MakeMap { dst, pairs: pairs@ },
        Instr::MakeStruct { dst, class, fields } => IV::MakeStruct { dst, class, fields: fields@ },
        Instr::Call { dst, callee, args } => IV::Call { dst, callee, args: args@ },
        Instr::Spawn { callee, args } => IV::Spawn { callee, args: args@ },
        Instr::Concat { dst, parts } => IV::Concat { dst, parts: parts@ },
        _ => IV::Plain(ins),
    }
}

/// A compiled function, as the compiler's state shows it.
pub struct ChunkV {
    pub instrs: Seq<IV>,
    pub consts: Seq<CV>,
    pub names: Seq<Seq<char>>,
    pub nregs: u16,
    pub params: Seq<Seq<char>>,
    pub exports: Seq<Seq<char>>,
    pub name: Seq<char>,
}

/// A constant: a function or class by its view, any other value as it is.
pub enum CV {
    Plain(Value),
    Function(ChunkV),
    Class { name: Seq<char>, fields: Seq<Seq<char>> },
}

/// The view of a list of names.
pub open spec fn names_v(ns: Seq<String>) -> Seq<Seq<char>> {
    ns.map_values(|n: String| n@)
}

/// The names of a list of parameters.
pub open spec fn param_names_v(ps: Seq<Param>) -> Seq<Seq<char>> {
    ps.map_values(|p: Param| p.name@)
}

/// The view of a constant.
pub open spec fn cv(v: Value) -> CV
    decreases v,
{
    match v {
        Value::Function(c) => CV::Function(chunk_v(*c)),
        Value::Class { name, fields } => CV::Class { name: name@, fields: names_v(fields@) },
        _ => CV::Plain(v),
    }
}

/// The views of a list of constants.
pub open spec fn cvs(vs: Seq<Value>) -> Seq<CV>
    decreases vs,
{
    if vs.len() == 0 {
        seq![]
    } else {
        cvs(vs.drop_last()).push(cv(vs.last()))
    }
}

/// There is one view per constant.
pub proof fn lemma_cvs_len(vs: Seq<Value>)
    ensures
        cvs(vs).len() == vs.len(),
    decreases vs.len(),
{
    if vs.len() > 0 {
        lemma_cvs_len(vs.drop_last());
    }
}

/// The views of a list of instructions.
pub open spec fn instrs_v(is: Seq<Instr>) -> Seq<IV> {
    is.map_values(|i: Instr| iv(i))
}

/// The view of a chunk.
#[verifier::opaque]
pub open spec fn chunk_v(c: FunctionChunk) -> ChunkV
    decreases c,
{
    ChunkV {
        instrs: instrs_v(c.instrs@),
        consts: cvs(c.constants@),
        names: names_v(c.names@),
        nregs: c.num_registers,
        params: names_v(c.param_names@),
        exports: names_v(c.exports@),
        name: c.name@,
    }
}

/// An enclosing loop: its pending `break` and `continue` jumps, where its
/// condition is checked, and whether it is a `for` loop.
pub struct LoopV {
    pub breaks: Seq<usize>,
    pub conts: Seq<usize>,
    pub check: usize,
    pub is_for: bool,
}

/// The state of a compiler: the chunk being built and the bookkeeping around it.
#[verifier::ext_equal]
pub struct CState {
    pub instrs: Seq<IV>,
    pub consts: Seq<CV>,
    pub names: Seq<Seq<char>>,
    pub nregs: u16,
    pub params: Seq<Seq<char>>,
    pub exports: Seq<Seq<char>>,
    pub name: Seq<char>,
    pub next: u8,
    pub locals: Map<Seq<char>, Reg>,
    pub module: bool,
    pub loops: Seq<LoopV>,
    pub overflow: bool,
}

/// The chunk of a state.
pub open spec fn chunk_of(s: CState) -> ChunkV {
    ChunkV {
        instrs: s.instrs,
        consts: s.consts,
        names: s.names,
        nregs: s.nregs,
        params: s.params,
        exports: s.exports,
        name: s.name,
    }
}

/// The jump target for position `pc`.
pub open spec fn addr_of(pc: usize) -> Addr {
    Addr(pc as u32)
}

/// `ins` with its jump target (or, where `with_iter`, the exit of its
/// iteration) set to `t`; any other instruction as it is.
pub open spec fn patched(ins: Instr, t: Addr, with_iter: bool) -> Instr {
    match ins {
        Instr::Jump { .. } => Instr::Jump { target: t },
        Instr::JumpIfFalse { cond, .. } => Instr::JumpIfFalse { cond, target: t },
        Instr::JumpIfTrue { cond, .. } => Instr::JumpIfTrue { cond, target: t },
        Instr::IterNext { var, iter, .. } => if with_iter {
            Instr::IterNext { var, iter, done: t }
        } else {
            ins
        },
        _ => ins,
    }
}

/// `patched` on the view of an instruction.
pub open spec fn patched_v(ins: IV, t: Addr, with_iter: bool) -> IV {
    match ins {
        IV::Plain(i) => IV::Plain(patched(i, t, with_iter)),
        _ => ins,
    }
}

/// Whether position `i` is among the first `n` entries of `ps`.
pub open spec fn in_patches(ps: Seq<usize>, i: int, n: int) -> bool {
    exists|k: int| 0 <= k < n && #[trigger] ps[k] == i
}

/// `ins` pointed at `t` where `hit` (jumps only), else as it is.
pub open spec fn patched_if(ins: Instr, hit: bool, t: Addr) -> Instr {
    if hit {
        patched(ins, t, false)
    } else {
        ins
    }
}

/// The first position at or after `i` where `names` holds `n`, or `-1`.
pub open spec fn find_in(names: Seq<Seq<char>>, n: Seq<char>, i: int) -> int
    decreases names.len() - i,
{
    if i < 0 || i >= names.len() {
        -1
    } else if names[i] == n {
        i
    } else {
        find_in(names, n, i + 1)
    }
}

// ── Single steps ───────────────────────────────────────────────────────────

/// A fresh register; asking for the 256th marks the state as overflowed.
pub open spec fn s_fresh(a: CState) -> (CState, Reg) {
    if a.next == 255 {
        (CState { overflow: true, nregs: 256, ..a }, Reg(255))
    } else {
        let n = (a.next + 1) as u8;
        (CState { next: n, nregs: if n as u16 > a.nregs { n as u16 } else { a.nregs }, ..a }, Reg(a.next))
    }
}

/// `ins` appended to the code.
pub open spec fn s_emit(a: CState, ins: IV) -> CState {
    CState { instrs: a.instrs.push(ins), ..a }
}

/// `v` appended to the constant pool, with its index.
pub open spec fn s_const(a: CState, v: CV) -> (CState, ConstIdx) {
    (CState { consts: a.consts.push(v), ..a }, ConstIdx((a.consts.len() % 65536) as u16))
}

/// The index of name `n`, appended to the name table if it is not there yet.
pub open spec fn s_name(a: CState, n: Seq<char>) -> (CState, NameIdx) {
    let f = find_in(a.names, n, 0);
    if f >= 0 {
        (a, NameIdx((f % 65536) as u16))
    } else {
        (CState { names: a.names.push(n), ..a }, NameIdx((a.names.len() % 65536) as u16))
    }
}

/// The jump at `idx` pointed at `t` (the exit of an iteration too, where `w`).
pub open spec fn s_patch(a: CState, idx: int, t: usize, w: bool) -> CState {
    CState { instrs: a.instrs.update(idx, patched_v(a.instrs[idx], addr_of(t), w)), ..a }
}

/// Every jump listed in `ps` pointed at `t`.
pub open spec fn s_patch_all(a: CState, ps: Seq<usize>, t: usize) -> CState {
    CState {
        instrs: Seq::new(a.instrs.len(), |i: int| if in_patches(ps, i, ps.len() as int) {
            patched_v(a.instrs[i], addr_of(t), false)
        } else {
            a.instrs[i]
        }),
        ..a
    }
}

/// A constant loaded into a fresh register.
pub open spec fn s_load_const(a: CState, v: CV) -> (CState, Reg) {
    let (s1, r) = s_fresh(a);
    let (s2, ci) = s_const(s1, v);
    (s_emit(s2, IV::Plain(Instr::LoadConst { dst: r, idx: ci })), r)
}

/// Variable `n` read: a local in place, a global loaded into a fresh register.
pub open spec fn s_load_name(a: CState, n: Seq<char>) -> (CState, Reg) {
    if a.locals.contains_key(n) {
        (a, a.locals[n])
    } else {
        let (s1, d) = s_fresh(a);
        let (s2, ni) = s_name(s1, n);
        (s_emit(s2, IV::Plain(Instr::LoadGlobal { dst: d, name: ni })), d)
    }
}

/// Register `reg` stored in variable `n`: a global in a module; in a
/// function a move into the local's register, or a new local bound to `reg`.
pub open spec fn s_store_name(a: CState, n: Seq<char>, reg: Reg) -> CState {
    if a.module {
        let (s1, ni) = s_name(a, n);
        s_emit(s1, IV::Plain(Instr::StoreGlobal { name: ni, src: reg }))
    } else if a.locals.contains_key(n) {
        s_emit(a, IV::Plain(Instr::Move { dst: a.locals[n], src: reg }))
    } else {
        CState { locals: a.locals.insert(n, reg), ..a }
    }
}

/// Pending jump `p` recorded in the innermost loop, if there is one.
pub open spec fn s_push_patch(a: CState, p: usize, is_break: bool) -> CState {
    if a.loops.len() == 0 {
        a
    } else {
        let l = a.loops.last();
        let l2 = if is_break {
            LoopV { breaks: l.breaks.push(p), ..l }
        } else {
            LoopV { conts: l.conts.push(p), ..l }
        };
        CState { loops: a.loops.drop_last().push(l2), ..a }
    }
}

/// A loop opened, its condition checked at `check`.
pub open spec fn s_open(a: CState, check: usize, is_for: bool) -> CState {
    CState { loops: a.loops.push(LoopV { breaks: seq![], conts: seq![], check, is_for }), ..a }
}

/// The innermost loop closed.
pub open spec fn s_close(a: CState) -> CState {
    CState { loops: a.loops.drop_last(), ..a }
}

/// The state of a compiler for a function body named `name`.
pub open spec fn s_new_fn(name: Seq<char>) -> CState {
    CState {
        instrs: seq![],
        consts: seq![],
        names: seq![],
        nregs: 0,
        params: seq![],
        exports: seq![],
        name,
        next: 0,
        locals: Map::empty(),
        module: false,
        loops: seq![],
        overflow: false,
    }
}

/// The state of a compiler for a module named `name`.
pub open spec fn s_new_module(name: Seq<char>) -> CState {
    CState { module: true, ..s_new_fn(name) }
}

/// The first parameters `ps` bound to registers 0, 1, …; the 256th overflows.
pub open spec fn s_bind_regs(a: CState, ps: Seq<Param>) -> CState
    decreases ps.len(),
{
    if ps.len() == 0 {
        a
    } else {
        let s = s_bind_regs(a, ps.drop_last());
        let i = ps.len() - 1;
        if i < 255 && !s.overflow {
            CState { locals: s.locals.insert(ps.last().name@, Reg(i as u8)), next: (i + 1) as u8, nregs: (i + 1) as u16, ..s }
        } else {
            CState { overflow: true, ..s }
        }
    }
}

/// The parameters bound, and their names recorded.
pub open spec fn s_bind(a: CState, ps: Seq<Param>) -> CState {
    CState { params: param_names_v(ps), ..s_bind_regs(a, ps) }
}

/// Whether the code ends with a `Return`.
pub open spec fn ends_in_return(a: CState) -> bool {
    a.instrs.len() > 0 && a.instrs.last() matches IV::Plain(Instr::Return { .. })
}

/// The code closed by a `Return` unless it already ends with one.
pub open spec fn s_finish(a: CState) -> CState {
    if ends_in_return(a) {
        a
    } else {
        s_emit(a, IV::Plain(Instr::Return { src: None }))
    }
}

/// The instruction that computes `a op b` into `dst`: the range for `..`,
/// the arithmetic or comparison for the others (`and` and `or` are
/// compiled apart).
pub open spec fn binop_instr(op: BinOp, dst: Reg, a: Reg, b: Reg) -> Instr {
    match op {
        BinOp::DotDot => Instr::MakeRange { dst, start: a, end: b },
        BinOp::Plus => Instr::AddInt { dst, a, b },
        BinOp::Minus => Instr::SubInt { dst, a, b },
        BinOp::Star => Instr::MulInt { dst, a, b },
        BinOp::Slash => Instr::DivInt { dst, a, b },
        BinOp::Percent => Instr::Mod { dst, a, b },
        BinOp::EqEq => Instr::CmpEq { dst, a, b },
        BinOp::BangEq => Instr::CmpNe { dst, a, b },
        BinOp::Lt => Instr::CmpLt { dst, a, b },
        BinOp::Gt => Instr::CmpGt { dst, a, b },
        BinOp::LtEq => Instr::CmpLe { dst, a, b },
        BinOp::GtEq => Instr::CmpGe { dst, a, b },
        _ => Instr::Move { dst, src: a },
    }
}

/// The state a function compiler ends in: `body` compiled in a fresh
/// compiler named `name` with parameters `params`, closed by a `Return`.
pub open spec fn fn_state(name: Seq<char>, params: Seq<Param>, body: Seq<Stmt>) -> CState
    decreases body, 1nat,
{
    s_finish(fb(s_bind(s_new_fn(name), params), body))
}

/// A function compiled as a constant: loaded into a fresh register; its
/// overflow is the unit's overflow too.
pub open spec fn s_fn_const(a: CState, name: Seq<char>, params: Seq<Param>, body: Seq<Stmt>) -> (CState, Reg)
    decreases body, 2nat,
{
    let sub = fn_state(name, params, body);
    s_load_const(CState { overflow: a.overflow || sub.overflow, ..a }, CV::Function(chunk_of(sub)))
}

// ── Expressions ────────────────────────────────────────────────────────────

/// Compiling expression `e` from state `a`: the state after, and the
/// register holding the value.
pub open spec fn cf(a: CState, e: Expr) -> (CState, Reg)
    decreases e, 3nat,
{
    match e.kind {
        ExprKind::Null => s_load_const(a, CV::Plain(Value::Null)),
        ExprKind::Bool(x) => s_load_const(a, CV::Plain(Value::Bool(x))),
        ExprKind::Int(n) => s_load_const(a, CV::Plain(Value::Int(n))),
        ExprKind::Float(t) => s_load_const(a, CV::Plain(Value::Float(t))),
        ExprKind::Str(t) => s_load_const(a, CV::Plain(Value::Str(t))),
        ExprKind::Ident(n) => s_load_name(a, n@),
        ExprKind::BinOp { op, left, right } => if op is And || op is Or {
            let (s0, d) = s_fresh(a);
            let (s1, rl) = cf(s0, *left);
            let s2 = s_emit(s1, IV::Plain(Instr::Move { dst: d, src: rl }));
            let jf = s2.instrs.len() as int;
            let s3 = s_emit(s2, IV::Plain(if op is And {
                Instr::JumpIfFalse { cond: d, target: Addr(0) }
            } else {
                Instr::JumpIfTrue { cond: d, target: Addr(0) }
            }));
            let (s4, rr) = cf(s3, *right);
            let s5 = s_emit(s4, IV::Plain(Instr::Move { dst: d, src: rr }));
            (s_patch(s5, jf, s5.instrs.len() as usize, true), d)
        } else {
            let (s1, ra) = cf(a, *left);
            let (s2, rb) = cf(s1, *right);
            let (s3, d) = s_fresh(s2);
            (s_emit(s3, IV::Plain(binop_instr(op, d, ra, rb))), d)
        },
        ExprKind::UnaryOp { op, expr } => {
            let (s1, r0) = cf(a, *expr);
            let (s2, d) = s_fresh(s1);
            (s_emit(s2, IV::Plain(if op is Minus { Instr::Negate { dst: d, src: r0 } } else { Instr::Not { dst: d, src: r0 } })), d)
        },
        ExprKind::Call { callee, args } => {
            let (s1, rc) = cf(a, *callee);
            let (s2, descs) = cfa(s1, args@);
            let (s3, d) = s_fresh(s2);
            (s_emit(s3, IV::Call { dst: Some(d), callee: rc, args: descs }), d)
        },
        ExprKind::Index { obj, idx } => {
            let (s1, ro) = cf(a, *obj);
            let (s2, ri) = cf(s1, *idx);
            let (s3, d) = s_fresh(s2);
            (s_emit(s3, IV::Plain(Instr::LoadIndex { dst: d, obj: ro, idx: ri })), d)
        },
        ExprKind::Field { obj, field, .. } => {
            let (s1, ro) = cf(a, *obj);
            let (s2, fi) = s_name(s1, field@);
            let (s3, d) = s_fresh(s2);
            (s_emit(s3, IV::Plain(Instr::LoadField { dst: d, obj: ro, field: fi })), d)
        },
        ExprKind::List(items) => cf_list(a, items@),
        ExprKind::Dict(pairs) => cf_map(a, pairs@),
        ExprKind::Lambda { params, body, .. } => s_fn_const(a, "<lambda>"@, params@, body@),
        ExprKind::Interp(parts) => cf_interp(a, parts@),
        ExprKind::Ternary { cond, then, else_ } => {
            let (s0, d) = s_fresh(a);
            let (s1, rc) = cf(s0, *cond);
            let jf = s1.instrs.len() as int;
            let s2 = s_emit(s1, IV::Plain(Instr::JumpIfFalse { cond: rc, target: Addr(0) }));
            let (s3, rt) = cf(s2, *then);
            let s4 = s_emit(s3, IV::Plain(Instr::Move { dst: d, src: rt }));
            let jmp = s4.instrs.len() as int;
            let s5 = s_emit(s4, IV::Plain(Instr::Jump { target: Addr(0) }));
            let s6 = s_patch(s5, jf, s5.instrs.len() as usize, true);
            let (s7, re) = cf(s6, *else_);
            let s8 = s_emit(s7, IV::Plain(Instr::Move { dst: d, src: re }));
            (s_patch(s8, jmp, s8.instrs.len() as usize, true), d)
        },
        ExprKind::Propagate(inner) => {
            let (s1, r) = cf(a, *inner);
            (s_emit(s1, IV::Plain(Instr::Propagate { src: r })), r)
        },
        ExprKind::Spawn(inner) => {
            let s3 = match inner.kind {
                ExprKind::Call { callee, args } => {
                    let (s1, rc) = cf(a, *callee);
                    let (s2, descs) = cfa(s1, args@);
                    s_emit(s2, IV::Spawn { callee: rc, args: descs })
                },
                _ => {
                    let (s1, rf) = cf(a, *inner);
                    s_emit(s1, IV::Spawn { callee: rf, args: seq![] })
                },
            };
            s_load_const(s3, CV::Plain(Value::Null))
        },
    }
}

/// A list literal: its items compiled, then the list built in a fresh register.
pub open spec fn cf_list(a: CState, items: Seq<Expr>) -> (CState, Reg)
    decreases items, 2nat,
{
    let (s1, regs) = cfl(a, items);
    let (s2, d) = s_fresh(s1);
    (s_emit(s2, IV::MakeList { dst: d, items: regs }), d)
}

/// A map literal: its entries compiled, then the map built in a fresh register.
pub open spec fn cf_map(a: CState, pairs: Seq<(Expr, Expr)>) -> (CState, Reg)
    decreases pairs, 2nat,
{
    let (s1, regs) = cfp(a, pairs);
    let (s2, d) = s_fresh(s1);
    (s_emit(s2, IV::MakeMap { dst: d, pairs: regs }), d)
}

/// An interpolated string: its parts compiled; a single part is the value,
/// several are concatenated in a fresh register.
pub open spec fn cf_interp(a: CState, parts: Seq<InterpPart>) -> (CState, Reg)
    decreases parts, 2nat,
{
    let (s1, regs) = cfs(a, parts);
    if regs.len() == 1 {
        (s1, regs[0])
    } else {
        let (s2, d) = s_fresh(s1);
        (s_emit(s2, IV::Concat { dst: d, parts: regs }), d)
    }
}

/// The items of a list compiled left to right, their values' registers.
pub open spec fn cfl(a: CState, items: Seq<Expr>) -> (CState, Seq<Reg>)
    decreases items, 1nat,
{
    if items.len() == 0 {
        (a, seq![])
    } else {
        let (s, rs) = cfl(a, items.drop_last());
        let (s1, r) = cf(s, items.last());
        (s1, rs.push(r))
    }
}

/// The entries of a map compiled in order, key before value.
pub open spec fn cfp(a: CState, pairs: Seq<(Expr, Expr)>) -> (CState, Seq<(Reg, Reg)>)
    decreases pairs, 1nat,
{
    if pairs.len() == 0 {
        (a, seq![])
    } else {
        let (s, rs) = cfp(a, pairs.drop_last());
        let (s1, k) = cf(s, pairs.last().0);
        let (s2, v) = cf(s1, pairs.last().1);
        (s2, rs.push((k, v)))
    }
}

/// The arguments of a call compiled left to right; a named argument's name is interned.
pub open spec fn cfa(a: CState, args: Seq<CallArg>) -> (CState, Seq<CallArgDesc>)
    decreases args, 1nat,
{
    if args.len() == 0 {
        (a, seq![])
    } else {
        let (s, ds) = cfa(a, args.drop_last());
        let (s1, r) = cf(s, args.last().expr);
        match args.last().name {
            Some(n) => {
                let (s2, ni) = s_name(s1, n@);
                (s2, ds.push(CallArgDesc { name: Some(ni), reg: r }))
            },
            None => (s1, ds.push(CallArgDesc { name: None, reg: r })),
        }
    }
}

/// The parts of an interpolated string compiled in order: a non-empty text
/// loaded as a constant, an expression turned into its text.
pub open spec fn cfs(a: CState, parts: Seq<InterpPart>) -> (CState, Seq<Reg>)
    decreases parts, 1nat,
{
    if parts.len() == 0 {
        (a, seq![])
    } else {
        let (s, rs) = cfs(a, parts.drop_last());
        match parts.last() {
            InterpPart::Str(t) => if t@.len() > 0 {
                let (s1, ci) = s_const(s, CV::Plain(Value::Str(t)));
                let (s2, rr) = s_fresh(s1);
                (s_emit(s2, IV::Plain(Instr::LoadConst { dst: rr, idx: ci })), rs.push(rr))
            } else {
                (s, rs)
            },
            InterpPart::Expr(e) => {
                let (s1, r0) = cf(s, e);
                let (s2, t) = s_fresh(s1);
                (s_emit(s2, IV::Plain(Instr::Stringify { dst: t, src: r0 })), rs.push(t))
            },
        }
    }
}

// ── Statements ─────────────────────────────────────────────────────────────

/// The statements of a block compiled in order.
pub open spec fn fb(a: CState, body: Seq<Stmt>) -> CState
    decreases body, 0nat,
{
    if body.len() == 0 {
        a
    } else {
        fs(fb(a, body.drop_last()), body.last())
    }
}

/// The name an `export` publishes: that of a function, assignment or class.
pub open spec fn export_name(k: StmtKind) -> Option<Seq<char>> {
    match k {
        StmtKind::FnDef(f) => Some(f.name@),
        StmtKind::Assign { target, .. } => Some(target@),
        StmtKind::ClsDef(c) => Some(c.name@),
        _ => None,
    }
}

/// The binding of `k` in `m`.
pub open spec fn binding(m: Map<Seq<char>, Reg>, k: Seq<char>) -> Option<Reg> {
    if m.contains_key(k) {
        Some(m[k])
    } else {
        None
    }
}

/// `m` with the binding of `k` put back as `prev` had it (`None`: unbound).
pub open spec fn restore(m: Map<Seq<char>, Reg>, k: Seq<char>, prev: Option<Reg>) -> Map<Seq<char>, Reg> {
    match prev {
        Some(p) => m.remove(k).insert(k, p),
        None => m.remove(k),
    }
}

/// A loop body compiled from `a` (loop opened), then the loop closed, its
/// pending `continue` jumps pointed at `check` where `cont_check`, else at the
/// jump back, and the jump back to `check` emitted. Also the closed loop.
pub open spec fn fl(a: CState, body: Seq<Stmt>, check: usize, cont_check: bool) -> (CState, LoopV)
    decreases body, 1nat,
{
    let s = fb(a, body);
    let ctx = s.loops.last();
    let s1 = s_close(s);
    let s2 = s_patch_all(s1, ctx.conts, if cont_check { check } else { s1.instrs.len() as usize });
    (s_emit(s2, IV::Plain(Instr::Jump { target: addr_of(check) })), ctx)
}

/// The end of a loop: its exit jump at `exit` and its `break` jumps pointed past it.
pub open spec fn s_loop_end(a: CState, exit: int, ctx: LoopV) -> CState {
    let s = s_patch(a, exit, a.instrs.len() as usize, true);
    s_patch_all(s, ctx.breaks, s.instrs.len() as usize)
}

/// Compiling statement `st` from state `a`.
pub open spec fn fs(a: CState, st: Stmt) -> CState
    decreases st, 2nat,
{
    match st.kind {
        StmtKind::Export(inner) => {
            let s1 = fs(a, *inner);
            match export_name(inner.kind) {
                Some(n) => CState { exports: s1.exports.push(n), ..s1 },
                None => s1,
            }
        },
        StmtKind::FnDef(f) => {
            let (s1, r) = s_fn_const(a, f.name@, f.params@, f.body@);
            s_store_name(s1, f.name@, r)
        },
        StmtKind::ClsDef(c) => {
            let v = CV::Class { name: c.name@, fields: param_names_v(c.fields@) };
            let (s1, r) = s_load_const(a, v);
            s_store_name(s1, c.name@, r)
        },
        StmtKind::Assign { target, value, .. } => {
            let (s1, r) = cf(a, value);
            s_store_name(s1, target@, r)
        },
        StmtKind::FieldAssign { obj, field, value, .. } => {
            let (s1, ro) = cf(a, obj);
            let (s2, rv) = cf(s1, value);
            let (s3, fi) = s_name(s2, field@);
            s_emit(s3, IV::Plain(Instr::StoreField { obj: ro, field: fi, src: rv }))
        },
        StmtKind::IndexAssign { obj, idx, value } => {
            let (s1, ro) = cf(a, obj);
            let (s2, ri) = cf(s1, idx);
            let (s3, rv) = cf(s2, value);
            s_emit(s3, IV::Plain(Instr::StoreIndex { obj: ro, idx: ri, src: rv }))
        },
        StmtKind::Return(e) => match e {
            None => s_emit(a, IV::Plain(Instr::Return { src: None })),
            Some(x) => {
                let (s1, r) = cf(a, x);
                s_emit(s1, IV::Plain(Instr::Return { src: Some(r) }))
            },
        },
        StmtKind::Expr(x) => cf(a, x).0,
        StmtKind::If { cond, then, elifs, else_ } => {
            let (s1, rc) = cf(a, cond);
            let jf = s1.instrs.len() as int;
            let s2 = s_emit(s1, IV::Plain(Instr::JumpIfFalse { cond: rc, target: Addr(0) }));
            let s3 = fb(s2, then@);
            let j = s3.instrs.len() as usize;
            let s4 = s_emit(s3, IV::Plain(Instr::Jump { target: Addr(0) }));
            let s5 = s_patch(s4, jf, s4.instrs.len() as usize, true);
            let (s6, js) = fe(s5, elifs@);
            let s7 = match else_ {
                Some(e) => fb(s6, e@),
                None => s6,
            };
            s_patch_all(s7, seq![j] + js, s7.instrs.len() as usize)
        },
        StmtKind::While { cond, body } => {
            let check = a.instrs.len() as usize;
            let (s1, rc) = cf(a, cond);
            let jf = s1.instrs.len() as int;
            let s2 = s_emit(s1, IV::Plain(Instr::JumpIfFalse { cond: rc, target: Addr(0) }));
            let (s4, ctx) = fl(s_open(s2, check, false), body@, check, true);
            s_loop_end(s4, jf, ctx)
        },
        StmtKind::For { var, iter, step, body, .. } => {
            let (s1, ri) = cf(a, iter);
            let (s2, rs) = match step {
                Some(e) => {
                    let (s, r) = cf(s1, e);
                    (s, Some(r))
                },
                None => (s1, None),
            };
            let (s3, r_iter) = s_fresh(s2);
            let (s4, r_var) = s_fresh(s3);
            let s5 = s_emit(s4, IV::Plain(Instr::ForIter { dst: r_iter, src: ri, step: rs }));
            let check = s5.instrs.len() as usize;
            let s6 = s_emit(s5, IV::Plain(Instr::IterNext { var: r_var, iter: r_iter, done: Addr(0) }));
            let prev = binding(s6.locals, var@);
            let s7 = CState { locals: s6.locals.remove(var@).insert(var@, r_var), ..s6 };
            let (s9, ctx) = fl(s_open(s7, check, true), body@, check, false);
            let s10 = s_loop_end(s9, check as int, ctx);
            CState { locals: restore(s10.locals.remove(var@), var@, prev), ..s10 }
        },
        StmtKind::ForKV { key, val, iter, body, .. } => {
            let (s1, rm) = cf(a, iter);
            let (s2, r_loader) = s_fresh(s1);
            let (s3, nk) = s_name(s2, "__map_keys"@);
            let s4 = s_emit(s3, IV::Plain(Instr::LoadGlobal { dst: r_loader, name: nk }));
            let (s5, r_keys) = s_fresh(s4);
            let s6 = s_emit(s5, IV::Call { dst: Some(r_keys), callee: r_loader, args: seq![CallArgDesc { name: None, reg: rm }] });
            let (s7, r_iter) = s_fresh(s6);
            let (s8, r_k) = s_fresh(s7);
            let (s9, r_v) = s_fresh(s8);
            let s10 = s_emit(s9, IV::Plain(Instr::ForIter { dst: r_iter, src: r_keys, step: None }));
            let check = s10.instrs.len() as usize;
            let s11 = s_emit(s10, IV::Plain(Instr::IterNext { var: r_k, iter: r_iter, done: Addr(0) }));
            let s12 = s_emit(s11, IV::Plain(Instr::LoadIndex { dst: r_v, obj: rm, idx: r_k }));
            let prev_k = binding(s12.locals, key@);
            let prev_v = binding(s12.locals.remove(key@), val@);
            let bound = CState {
                locals: s12.locals.remove(key@).remove(val@).insert(key@, r_k).insert(val@, r_v),
                ..s12
            };
            let (s13, ctx) = fl(s_open(bound, check, true), body@, check, false);
            let s14 = s_loop_end(s13, check as int, ctx);
            let l1 = s14.locals.remove(key@).remove(val@);
            let l2 = match prev_k {
                Some(p) => l1.insert(key@, p),
                None => l1,
            };
            let l3 = match prev_v {
                Some(p) => l2.insert(val@, p),
                None => l2,
            };
            CState { locals: l3, ..s14 }
        },
        StmtKind::Break => s_push_patch(s_emit(a, IV::Plain(Instr::Jump { target: Addr(0) })), a.instrs.len() as usize, true),
        StmtKind::Continue => if a.loops.len() == 0 {
            a
        } else if a.loops.last().is_for {
            s_push_patch(s_emit(a, IV::Plain(Instr::Jump { target: Addr(0) })), a.instrs.len() as usize, false)
        } else {
            s_emit(a, IV::Plain(Instr::Jump { target: addr_of(a.loops.last().check) }))
        },
        StmtKind::Load { alias, source, .. } => {
            let (s1, r_fn) = s_fresh(a);
            let (s2, ni) = s_name(s1, "__load_module"@);
            let s3 = s_emit(s2, IV::Plain(Instr::LoadGlobal { dst: r_fn, name: ni }));
            let (s4, r_src) = s_fresh(s3);
            let (s5, ci) = s_const(s4, CV::Plain(Value::Str(source)));
            let s6 = s_emit(s5, IV::Plain(Instr::LoadConst { dst: r_src, idx: ci }));
            let (s7, r_mod) = s_fresh(s6);
            let s8 = s_emit(s7, IV::Call { dst: Some(r_mod), callee: r_fn, args: seq![CallArgDesc { name: None, reg: r_src }] });
            s_store_name(s8, alias@, r_mod)
        },
    }
}

/// The `elif` branches compiled in order: each condition, its exit jump
/// (patched past the branch), the branch, and a jump to the end of the `if`,
/// whose positions are returned.
pub open spec fn fe(a: CState, elifs: Seq<(Expr, Vec<Stmt>)>) -> (CState, Seq<usize>)
    decreases elifs, 1nat,
{
    if elifs.len() == 0 {
        (a, seq![])
    } else {
        let (s, js) = fe(a, elifs.drop_last());
        let (s1, rc) = cf(s, elifs.last().0);
        let ejf = s1.instrs.len() as int;
        let s2 = s_emit(s1, IV::Plain(Instr::JumpIfFalse { cond: rc, target: Addr(0) }));
        let s3 = fb(s2, elifs.last().1@);
        let j = s3.instrs.len() as usize;
        let s4 = s_emit(s3, IV::Plain(Instr::Jump { target: Addr(0) }));
        (s_patch(s4, ejf, s4.instrs.len() as usize, true), js.push(j))
    }
}

/// Compiling a program: its statements in order, then a closing `Return`
/// unless the code already ends with one.
pub open spec fn fprogram(a: CState, stmts: Seq<Stmt>) -> CState {
    s_finish(fb(a, stmts))
}

} // verus!

verus! {

// ── Laws ───────────────────────────────────────────────────────────────────

/// `a` is an initial part of `b`.
pub open spec fn is_prefix<T>(a: Seq<T>, b: Seq<T>) -> bool {
    a.len() <= b.len() && b.subrange(0, a.len() as int) == a
}

/// From `a` to `b` the code, the constants and the names only grew at their
/// ends, and the export list stayed as it was.
pub open spec fn pools_grow(a: CState, b: CState) -> bool {
    &&& is_prefix(a.instrs, b.instrs)
    &&& is_prefix(a.consts, b.consts)
    &&& is_prefix(a.names, b.names)
    &&& b.exports == a.exports
}

proof fn lemma_pools_trans(a: CState, b: CState, c: CState)
    requires
        pools_grow(a, b),
        pools_grow(b, c),
    ensures
        pools_grow(a, c),
{
    assert(c.instrs.subrange(0, a.instrs.len() as int) =~= c.instrs.subrange(0, b.instrs.len() as int).subrange(0, a.instrs.len() as int));
    assert(c.consts.subrange(0, a.consts.len() as int) =~= c.consts.subrange(0, b.consts.len() as int).subrange(0, a.consts.len() as int));
    assert(c.names.subrange(0, a.names.len() as int) =~= c.names.subrange(0, b.names.len() as int).subrange(0, a.names.len() as int));
}

proof fn lemma_pools_refl(a: CState)
    ensures
        pools_grow(a, a),
{
    assert(a.instrs.subrange(0, a.instrs.len() as int) =~= a.instrs);
    assert(a.consts.subrange(0, a.consts.len() as int) =~= a.consts);
    assert(a.names.subrange(0, a.names.len() as int) =~= a.names);
}

proof fn lemma_g_fresh(a: CState)
    ensures
        pools_grow(a, s_fresh(a).0),
{
    lemma_pools_refl(a);
}

proof fn lemma_g_emit(a: CState, ins: IV)
    ensures
        pools_grow(a, s_emit(a, ins)),
{
    lemma_pools_refl(a);
    assert(a.instrs.push(ins).subrange(0, a.instrs.len() as int) =~= a.instrs);
}

proof fn lemma_g_const(a: CState, v: CV)
    ensures
        pools_grow(a, s_const(a, v).0),
{
    lemma_pools_refl(a);
    assert(a.consts.push(v).subrange(0, a.consts.len() as int) =~= a.consts);
}

proof fn lemma_g_name(a: CState, n: Seq<char>)
    ensures
        pools_grow(a, s_name(a, n).0),
{
    lemma_pools_refl(a);
    assert(a.names.push(n).subrange(0, a.names.len() as int) =~= a.names);
}

proof fn lemma_g_load(a: CState, v: CV, n: Seq<char>)
    ensures
        pools_grow(a, s_load_const(a, v).0),
        pools_grow(a, s_load_name(a, n).0),
{
    let (s1, r) = s_fresh(a);
    lemma_g_fresh(a);
    let (s2, ci) = s_const(s1, v);
    lemma_g_const(s1, v);
    lemma_g_emit(s2, IV::Plain(Instr::LoadConst { dst: r, idx: ci }));
    lemma_pools_trans(a, s1, s2);
    lemma_pools_trans(a, s2, s_load_const(a, v).0);
    if a.locals.contains_key(n) {
        lemma_pools_refl(a);
    } else {
        let (t2, ni) = s_name(s1, n);
        lemma_g_name(s1, n);
        lemma_g_emit(t2, IV::Plain(Instr::LoadGlobal { dst: r, name: ni }));
        lemma_pools_trans(a, s1, t2);
        lemma_pools_trans(a, t2, s_load_name(a, n).0);
    }
}

proof fn lemma_pools_patch(a: CState, b: CState, idx: int, t: usize, w: bool)
    requires
        pools_grow(a, b),
        a.instrs.len() <= idx < b.instrs.len(),
    ensures
        pools_grow(a, s_patch(b, idx, t, w)),
{
    let c = s_patch(b, idx, t, w);
    assert(c.instrs.subrange(0, a.instrs.len() as int) =~= b.instrs.subrange(0, a.instrs.len() as int));
}

/// Compiling an expression only appends to the code, the constants and the
/// names (a jump it emits is patched in place, never an earlier instruction),
/// and leaves the export list as it was.
#[verifier::spinoff_prover]
#[verifier::rlimit(100)]
pub proof fn law_expr_pools_grow(a: CState, e: Expr)
    ensures
        pools_grow(a, cf(a, e).0),
    decreases e, 3nat,
{
    match e.kind {
        ExprKind::Null => lemma_g_load(a, CV::Plain(Value::Null), seq![]),
        ExprKind::Bool(x) => lemma_g_load(a, CV::Plain(Value::Bool(x)), seq![]),
        ExprKind::Int(n) => lemma_g_load(a, CV::Plain(Value::Int(n)), seq![]),
        ExprKind::Float(t) => lemma_g_load(a, CV::Plain(Value::Float(t)), seq![]),
        ExprKind::Str(t) => lemma_g_load(a, CV::Plain(Value::Str(t)), seq![]),
        ExprKind::Ident(n) => lemma_g_load(a, CV::Plain(Value::Null), n@),
        ExprKind::BinOp { op, left, right } => if op is And || op is Or {
            let (s0, d) = s_fresh(a);
            lemma_g_fresh(a);
            let (s1, rl) = cf(s0, *left);
            law_expr_pools_grow(s0, *left);
            lemma_pools_trans(a, s0, s1);
            let s2 = s_emit(s1, IV::Plain(Instr::Move { dst: d, src: rl }));
            lemma_g_emit(s1, IV::Plain(Instr::Move { dst: d, src: rl }));
            lemma_pools_trans(a, s1, s2);
            let jf = s2.instrs.len() as int;
            let j = IV::Plain(if op is And {
                Instr::JumpIfFalse { cond: d, target: Addr(0) }
            } else {
                Instr::JumpIfTrue { cond: d, target: Addr(0) }
            });
            let s3 = s_emit(s2, j);
            lemma_g_emit(s2, j);
            lemma_pools_trans(a, s2, s3);
            let (s4, rr) = cf(s3, *right);
            law_expr_pools_grow(s3, *right);
            lemma_pools_trans(a, s3, s4);
            let s5 = s_emit(s4, IV::Plain(Instr::Move { dst: d, src: rr }));
            lemma_g_emit(s4, IV::Plain(Instr::Move { dst: d, src: rr }));
            lemma_pools_trans(a, s4, s5);
            lemma_pools_patch(a, s5, jf, s5.instrs.len() as usize, true);
        } else {
            let (s1, ra) = cf(a, *left);
            law_expr_pools_grow(a, *left);
            let (s2, rb) = cf(s1, *right);
            law_expr_pools_grow(s1, *right);
            lemma_pools_trans(a, s1, s2);
            let (s3, d) = s_fresh(s2);
            lemma_g_fresh(s2);
            lemma_pools_trans(a, s2, s3);
            lemma_g_emit(s3, IV::Plain(binop_instr(op, d, ra, rb)));
            lemma_pools_trans(a, s3, cf(a, e).0);
        },
        ExprKind::UnaryOp { op, expr } => {
            let (s1, r0) = cf(a, *expr);
            law_expr_pools_grow(a, *expr);
            let (s2, d) = s_fresh(s1);
            lemma_g_fresh(s1);
            lemma_pools_trans(a, s1, s2);
            let ins = IV::Plain(if op is Minus { Instr::Negate { dst: d, src: r0 } } else { Instr::Not { dst: d, src: r0 } });
            lemma_g_emit(s2, ins);
            lemma_pools_trans(a, s2, cf(a, e).0);
        },
        ExprKind::Call { callee, args } => {
            let (s1, rc) = cf(a, *callee);
            law_expr_pools_grow(a, *callee);
            let (s2, descs) = cfa(s1, args@);
            lemma_args_pools_grow(s1, args@);
            lemma_pools_trans(a, s1, s2);
            let (s3, d) = s_fresh(s2);
            lemma_g_fresh(s2);
            lemma_pools_trans(a, s2, s3);
            lemma_g_emit(s3, IV::Call { dst: Some(d), callee: rc, args: descs });
            lemma_pools_trans(a, s3, cf(a, e).0);
        },
        ExprKind::Index { obj, idx } => {
            let (s1, ro) = cf(a, *obj);
            law_expr_pools_grow(a, *obj);
            let (s2, ri) = cf(s1, *idx);
            law_expr_pools_grow(s1, *idx);
            lemma_pools_trans(a, s1, s2);
            let (s3, d) = s_fresh(s2);
            lemma_g_fresh(s2);
            lemma_pools_trans(a, s2, s3);
            lemma_g_emit(s3, IV::Plain(Instr::LoadIndex { dst: d, obj: ro, idx: ri }));
            lemma_pools_trans(a, s3, cf(a, e).0);
        },
        ExprKind::Field { obj, field, .. } => {
            let (s1, ro) = cf(a, *obj);
            law_expr_pools_grow(a, *obj);
            let (s2, fi) = s_name(s1, field@);
            lemma_g_name(s1, field@);
            lemma_pools_trans(a, s1, s2);
            let (s3, d) = s_fresh(s2);
            lemma_g_fresh(s2);
            lemma_pools_trans(a, s2, s3);
            lemma_g_emit(s3, IV::Plain(Instr::LoadField { dst: d, obj: ro, field: fi }));
            lemma_pools_trans(a, s3, cf(a, e).0);
        },
        ExprKind::List(items) => {
            let (s1, regs) = cfl(a, items@);
            lemma_items_pools_grow(a, items@);
            let (s2, d) = s_fresh(s1);
            lemma_g_fresh(s1);
            lemma_pools_trans(a, s1, s2);
            lemma_g_emit(s2, IV::MakeList { dst: d, items: regs });
            assert(cf(a, e) == cf_list(a, items@));
            assert(cf_list(a, items@).0 == s_emit(s2, IV::MakeList { dst: d, items: regs }));
            lemma_pools_trans(a, s2, cf(a, e).0);
        },
        ExprKind::Dict(pairs) => {
            let (s1, regs) = cfp(a, pairs@);
            lemma_pairs_pools_grow(a, pairs@);
            let (s2, d) = s_fresh(s1);
            lemma_g_fresh(s1);
            lemma_pools_trans(a, s1, s2);
            lemma_g_emit(s2, IV::MakeMap { dst: d, pairs: regs });
            assert(cf(a, e) == cf_map(a, pairs@));
            assert(cf_map(a, pairs@).0 == s_emit(s2, IV::MakeMap { dst: d, pairs: regs }));
            lemma_pools_trans(a, s2, cf(a, e).0);
        },
        ExprKind::Lambda { params, body, .. } => {
            let sub = fn_state("<lambda>"@, params@, body@);
            let a1 = CState { overflow: a.overflow || sub.overflow, ..a };
            lemma_pools_refl(a);
            lemma_g_load(a1, CV::Function(chunk_of(sub)), seq![]);
            assert(cf(a, e) == s_fn_const(a, "<lambda>"@, params@, body@));
            lemma_pools_trans(a, a1, cf(a, e).0);
        },
        ExprKind::Interp(parts) => {
            let (s1, regs) = cfs(a, parts@);
            lemma_parts_pools_grow(a, parts@);
            assert(cf(a, e) == cf_interp(a, parts@));
            if regs.len() != 1 {
                let (s2, d) = s_fresh(s1);
                lemma_g_fresh(s1);
                lemma_pools_trans(a, s1, s2);
                lemma_g_emit(s2, IV::Concat { dst: d, parts: regs });
                lemma_pools_trans(a, s2, cf(a, e).0);
            }
        },
        ExprKind::Ternary { cond, then, else_ } => {
            let (s0, d) = s_fresh(a);
            lemma_g_fresh(a);
            let (s1, rc) = cf(s0, *cond);
            law_expr_pools_grow(s0, *cond);
            lemma_pools_trans(a, s0, s1);
            let jf = s1.instrs.len() as int;
            let s2 = s_emit(s1, IV::Plain(Instr::JumpIfFalse { cond: rc, target: Addr(0) }));
            lemma_g_emit(s1, IV::Plain(Instr::JumpIfFalse { cond: rc, target: Addr(0) }));
            lemma_pools_trans(a, s1, s2);
            let (s3, rt) = cf(s2, *then);
            law_expr_pools_grow(s2, *then);
            lemma_pools_trans(a, s2, s3);
            let s4 = s_emit(s3, IV::Plain(Instr::Move { dst: d, src: rt }));
            lemma_g_emit(s3, IV::Plain(Instr::Move { dst: d, src: rt }));
            lemma_pools_trans(a, s3, s4);
            let jmp = s4.instrs.len() as int;
            let s5 = s_emit(s4, IV::Plain(Instr::Jump { target: Addr(0) }));
            lemma_g_emit(s4, IV::Plain(Instr::Jump { target: Addr(0) }));
            lemma_pools_trans(a, s4, s5);
            let s6 = s_patch(s5, jf, s5.instrs.len() as usize, true);
            lemma_pools_patch(a, s5, jf, s5.instrs.len() as usize, true);
            let (s7, re) = cf(s6, *else_);
            law_expr_pools_grow(s6, *else_);
            lemma_pools_trans(a, s6, s7);
            let s8 = s_emit(s7, IV::Plain(Instr::Move { dst: d, src: re }));
            lemma_g_emit(s7, IV::Plain(Instr::Move { dst: d, src: re }));
            lemma_pools_trans(a, s7, s8);
            lemma_pools_patch(a, s8, jmp, s8.instrs.len() as usize, true);
        },
        ExprKind::Propagate(inner) => {
            let (s1, r) = cf(a, *inner);
            law_expr_pools_grow(a, *inner);
            lemma_g_emit(s1, IV::Plain(Instr::Propagate { src: r }));
            lemma_pools_trans(a, s1, cf(a, e).0);
        },
        ExprKind::Spawn(inner) => {
            let s3 = match inner.kind {
                ExprKind::Call { callee, args } => {
                    let (s1, rc) = cf(a, *callee);
                    law_expr_pools_grow(a, *callee);
                    let (s2, descs) = cfa(s1, args@);
                    lemma_args_pools_grow(s1, args@);
                    lemma_pools_trans(a, s1, s2);
                    lemma_g_emit(s2, IV::Spawn { callee: rc, args: descs });
                    lemma_pools_trans(a, s2, s_emit(s2, IV::Spawn { callee: rc, args: descs }));
                    s_emit(s2, IV::Spawn { callee: rc, args: descs })
                },
                _ => {
                    let (s1, rf) = cf(a, *inner);
                    law_expr_pools_grow(a, *inner);
                    lemma_g_emit(s1, IV::Spawn { callee: rf, args: seq![] });
                    lemma_pools_trans(a, s1, s_emit(s1, IV::Spawn { callee: rf, args: seq![] }));
                    s_emit(s1, IV::Spawn { callee: rf, args: seq![] })
                },
            };
            lemma_g_load(s3, CV::Plain(Value::Null), seq![]);
            lemma_pools_trans(a, s3, cf(a, e).0);
        },
    }
}

proof fn lemma_items_pools_grow(a: CState, items: Seq<Expr>)
    ensures
        pools_grow(a, cfl(a, items).0),
    decreases items, 1nat,
{
    if items.len() == 0 {
        lemma_pools_refl(a);
    } else {
        let (s, rs) = cfl(a, items.drop_last());
        lemma_items_pools_grow(a, items.drop_last());
        law_expr_pools_grow(s, items.last());
        lemma_pools_trans(a, s, cfl(a, items).0);
    }
}

proof fn lemma_pairs_pools_grow(a: CState, pairs: Seq<(Expr, Expr)>)
    ensures
        pools_grow(a, cfp(a, pairs).0),
    decreases pairs, 1nat,
{
    if pairs.len() == 0 {
        lemma_pools_refl(a);
    } else {
        let (s, rs) = cfp(a, pairs.drop_last());
        lemma_pairs_pools_grow(a, pairs.drop_last());
        let (s1, k) = cf(s, pairs.last().0);
        law_expr_pools_grow(s, pairs.last().0);
        lemma_pools_trans(a, s, s1);
        law_expr_pools_grow(s1, pairs.last().1);
        lemma_pools_trans(a, s1, cfp(a, pairs).0);
    }
}

proof fn lemma_args_pools_grow(a: CState, args: Seq<CallArg>)
    ensures
        pools_grow(a, cfa(a, args).0),
    decreases args, 1nat,
{
    if args.len() == 0 {
        lemma_pools_refl(a);
    } else {
        let (s, ds) = cfa(a, args.drop_last());
        lemma_args_pools_grow(a, args.drop_last());
        let (s1, r) = cf(s, args.last().expr);
        law_expr_pools_grow(s, args.last().expr);
        lemma_pools_trans(a, s, s1);
        match args.last().name {
            Some(n) => {
                lemma_g_name(s1, n@);
                lemma_pools_trans(a, s1, cfa(a, args).0);
            },
            None => {},
        }
    }
}

proof fn lemma_parts_pools_grow(a: CState, parts: Seq<InterpPart>)
    ensures
        pools_grow(a, cfs(a, parts).0),
    decreases parts, 1nat,
{
    if parts.len() == 0 {
        lemma_pools_refl(a);
    } else {
        let (s, rs) = cfs(a, parts.drop_last());
        lemma_parts_pools_grow(a, parts.drop_last());
        match parts.last() {
            InterpPart::Str(t) => if t@.len() > 0 {
                let (s1, ci) = s_const(s, CV::Plain(Value::Str(t)));
                lemma_g_const(s, CV::Plain(Value::Str(t)));
                lemma_pools_trans(a, s, s1);
                let (s2, rr) = s_fresh(s1);
                lemma_g_fresh(s1);
                lemma_pools_trans(a, s1, s2);
                lemma_g_emit(s2, IV::Plain(Instr::LoadConst { dst: rr, idx: ci }));
                lemma_pools_trans(a, s2, cfs(a, parts).0);
            },
            InterpPart::Expr(e) => {
                let (s1, r0) = cf(s, e);
                law_expr_pools_grow(s, e);
                lemma_pools_trans(a, s, s1);
                let (s2, t) = s_fresh(s1);
                lemma_g_fresh(s1);
                lemma_pools_trans(a, s1, s2);
                lemma_g_emit(s2, IV::Plain(Instr::Stringify { dst: t, src: r0 }));
                lemma_pools_trans(a, s2, cfs(a, parts).0);
            },
        }
    }
}

/// A program with no statements compiles to a single `Return`, with empty
/// pools and no exports.
pub proof fn law_empty_program(name: Seq<char>)
    ensures
        fprogram(s_new_module(name), seq![]).instrs == seq![IV::Plain(Instr::Return { src: None })],
        fprogram(s_new_module(name), seq![]).consts.len() == 0,
        fprogram(s_new_module(name), seq![]).names.len() == 0,
        fprogram(s_new_module(name), seq![]).exports.len() == 0,
        fprogram(s_new_module(name), seq![]).name == name,
{
    assert(seq![].push(IV::Plain(Instr::Return { src: None })) =~= seq![IV::Plain(Instr::Return { src: None })]);
}

/// Whether no statement within `st`, `st` included, is an `export`.
pub open spec fn exports_free(st: Stmt) -> bool
    decreases st, 1nat,
{
    match st.kind {
        StmtKind::Export(_) => false,
        StmtKind::If { then, elifs, else_, .. } => block_free(then@) && elifs_free(elifs@) && match else_ {
            Some(e) => block_free(e@),
            None => true,
        },
        StmtKind::While { body, .. } => block_free(body@),
        StmtKind::For { body, .. } => block_free(body@),
        StmtKind::ForKV { body, .. } => block_free(body@),
        _ => true,
    }
}

/// Whether no statement of a block is or holds an `export`.
pub open spec fn block_free(body: Seq<Stmt>) -> bool
    decreases body, 0nat,
{
    forall|i: int| 0 <= i < body.len() ==> exports_free(#[trigger] body[i])
}

/// Whether no `elif` branch holds an `export`.
pub open spec fn elifs_free(elifs: Seq<(Expr, Vec<Stmt>)>) -> bool
    decreases elifs, 0nat,
{
    forall|i: int| 0 <= i < elifs.len() ==> block_free(#[trigger] elifs[i].1@)
}

/// A top-level statement: an `export` of a statement that holds none, or a
/// statement that holds none.
pub open spec fn top_level_ok(st: Stmt) -> bool {
    match st.kind {
        StmtKind::Export(inner) => exports_free(*inner),
        _ => exports_free(st),
    }
}

/// The names a list of top-level statements exports, in order.
pub open spec fn exported_names(stmts: Seq<Stmt>) -> Seq<Seq<char>>
    decreases stmts.len(),
{
    if stmts.len() == 0 {
        seq![]
    } else {
        let rest = exported_names(stmts.drop_last());
        match stmts.last().kind {
            StmtKind::Export(inner) => match export_name(inner.kind) {
                Some(n) => rest.push(n),
                None => rest,
            },
            _ => rest,
        }
    }
}

proof fn lemma_fs_exports(a: CState, st: Stmt)
    requires
        exports_free(st),
    ensures
        fs(a, st).exports == a.exports,
    decreases st, 2nat,
{
    match st.kind {
        StmtKind::Export(_) => {},
        StmtKind::FnDef(f) => {
            let (s1, r) = s_fn_const(a, f.name@, f.params@, f.body@);
            let sub = fn_state(f.name@, f.params@, f.body@);
            lemma_g_load(CState { overflow: a.overflow || sub.overflow, ..a }, CV::Function(chunk_of(sub)), seq![]);
            lemma_store_exports(s1, f.name@, r);
        },
        StmtKind::ClsDef(c) => {
            let v = CV::Class { name: c.name@, fields: param_names_v(c.fields@) };
            let (s1, r) = s_load_const(a, v);
            lemma_g_load(a, v, seq![]);
            lemma_store_exports(s1, c.name@, r);
        },
        StmtKind::Assign { target, value, .. } => {
            let (s1, r) = cf(a, value);
            law_expr_pools_grow(a, value);
            lemma_store_exports(s1, target@, r);
        },
        StmtKind::FieldAssign { obj, field, value, .. } => {
            let (s1, ro) = cf(a, obj);
            law_expr_pools_grow(a, obj);
            law_expr_pools_grow(s1, value);
        },
        StmtKind::IndexAssign { obj, idx, value } => {
            let (s1, ro) = cf(a, obj);
            law_expr_pools_grow(a, obj);
            let (s2, ri) = cf(s1, idx);
            law_expr_pools_grow(s1, idx);
            law_expr_pools_grow(s2, value);
        },
        StmtKind::Return(e) => match e {
            None => {},
            Some(x) => law_expr_pools_grow(a, x),
        },
        StmtKind::Expr(x) => law_expr_pools_grow(a, x),
        StmtKind::If { cond, then, elifs, else_ } => {
            let (s1, rc) = cf(a, cond);
            law_expr_pools_grow(a, cond);
            let s2 = s_emit(s1, IV::Plain(Instr::JumpIfFalse { cond: rc, target: Addr(0) }));
            lemma_fb_exports(s2, then@);
            let s3 = fb(s2, then@);
            let s4 = s_emit(s3, IV::Plain(Instr::Jump { target: Addr(0) }));
            let s5 = s_patch(s4, s1.instrs.len() as int, s4.instrs.len() as usize, true);
            lemma_fe_exports(s5, elifs@);
            let (s6, js) = fe(s5, elifs@);
            match else_ {
                Some(e) => lemma_fb_exports(s6, e@),
                None => {},
            }
        },
        StmtKind::While { cond, body } => {
            let (s1, rc) = cf(a, cond);
            law_expr_pools_grow(a, cond);
            let s2 = s_emit(s1, IV::Plain(Instr::JumpIfFalse { cond: rc, target: Addr(0) }));
            lemma_fl_exports(s_open(s2, a.instrs.len() as usize, false), body@, a.instrs.len() as usize, true);
        },
        StmtKind::For { var, iter, step, body, .. } => {
            let (s1, ri) = cf(a, iter);
            law_expr_pools_grow(a, iter);
            let (s2, rs) = match step {
                Some(e) => {
                    let (s, r) = cf(s1, e);
                    law_expr_pools_grow(s1, e);
                    (s, Some(r))
                },
                None => (s1, None),
            };
            let (s3, r_iter) = s_fresh(s2);
            let (s4, r_var) = s_fresh(s3);
            let s5 = s_emit(s4, IV::Plain(Instr::ForIter { dst: r_iter, src: ri, step: rs }));
            let check = s5.instrs.len() as usize;
            let s6 = s_emit(s5, IV::Plain(Instr::IterNext { var: r_var, iter: r_iter, done: Addr(0) }));
            let s7 = CState { locals: s6.locals.remove(var@).insert(var@, r_var), ..s6 };
            lemma_fl_exports(s_open(s7, check, true), body@, check, false);
        },
        StmtKind::ForKV { key, val, iter, body, .. } => {
            let (s1, rm) = cf(a, iter);
            law_expr_pools_grow(a, iter);
            let (s2, r_loader) = s_fresh(s1);
            let (s3, nk) = s_name(s2, "__map_keys"@);
            let s4 = s_emit(s3, IV::Plain(Instr::LoadGlobal { dst: r_loader, name: nk }));
            let (s5, r_keys) = s_fresh(s4);
            let s6 = s_emit(s5, IV::Call { dst: Some(r_keys), callee: r_loader, args: seq![CallArgDesc { name: None, reg: rm }] });
            let (s7, r_iter) = s_fresh(s6);
            let (s8, r_k) = s_fresh(s7);
            let (s9, r_v) = s_fresh(s8);
            let s10 = s_emit(s9, IV::Plain(Instr::ForIter { dst: r_iter, src: r_keys, step: None }));
            let check = s10.instrs.len() as usize;
            let s11 = s_emit(s10, IV::Plain(Instr::IterNext { var: r_k, iter: r_iter, done: Addr(0) }));
            let s12 = s_emit(s11, IV::Plain(Instr::LoadIndex { dst: r_v, obj: rm, idx: r_k }));
            let bound = CState {
                locals: s12.locals.remove(key@).remove(val@).insert(key@, r_k).insert(val@, r_v),
                ..s12
            };
            lemma_g_name(s2, "__map_keys"@);
            lemma_fl_exports(s_open(bound, check, true), body@, check, false);
        },
        StmtKind::Break => {},
        StmtKind::Continue => {},
        StmtKind::Load { alias, source, .. } => {
            let (s1, r_fn) = s_fresh(a);
            let (s2, ni) = s_name(s1, "__load_module"@);
            lemma_g_name(s1, "__load_module"@);
            let s3 = s_emit(s2, IV::Plain(Instr::LoadGlobal { dst: r_fn, name: ni }));
            let (s4, r_src) = s_fresh(s3);
            let (s5, ci) = s_const(s4, CV::Plain(Value::Str(source)));
            let s6 = s_emit(s5, IV::Plain(Instr::LoadConst { dst: r_src, idx: ci }));
            let (s7, r_mod) = s_fresh(s6);
            let s8 = s_emit(s7, IV::Call { dst: Some(r_mod), callee: r_fn, args: seq![CallArgDesc { name: None, reg: r_src }] });
            lemma_store_exports(s8, alias@, r_mod);
        },
    }
}

proof fn lemma_store_exports(a: CState, n: Seq<char>, r: Reg)
    ensures
        s_store_name(a, n, r).exports == a.exports,
{
}

proof fn lemma_fb_exports(a: CState, body: Seq<Stmt>)
    requires
        block_free(body),
    ensures
        fb(a, body).exports == a.exports,
    decreases body, 0nat,
{
    if body.len() > 0 {
        assert(block_free(body.drop_last())) by {
            assert forall|i: int| 0 <= i < body.drop_last().len() implies exports_free(#[trigger] body.drop_last()[i]) by {
                assert(body.drop_last()[i] == body[i]);
            }
        }
        lemma_fb_exports(a, body.drop_last());
        assert(exports_free(body[body.len() - 1]));
        lemma_fs_exports(fb(a, body.drop_last()), body.last());
    }
}

proof fn lemma_fe_exports(a: CState, elifs: Seq<(Expr, Vec<Stmt>)>)
    requires
        elifs_free(elifs),
    ensures
        fe(a, elifs).0.exports == a.exports,
    decreases elifs, 1nat,
{
    if elifs.len() > 0 {
        assert(elifs_free(elifs.drop_last())) by {
            assert forall|i: int| 0 <= i < elifs.drop_last().len() implies block_free(#[trigger] elifs.drop_last()[i].1@) by {
                assert(elifs.drop_last()[i] == elifs[i]);
            }
        }
        lemma_fe_exports(a, elifs.drop_last());
        let (s, js) = fe(a, elifs.drop_last());
        let (s1, rc) = cf(s, elifs.last().0);
        law_expr_pools_grow(s, elifs.last().0);
        let s2 = s_emit(s1, IV::Plain(Instr::JumpIfFalse { cond: rc, target: Addr(0) }));
        assert(block_free(elifs[elifs.len() - 1].1@));
        lemma_fb_exports(s2, elifs.last().1@);
    }
}

proof fn lemma_fl_exports(a: CState, body: Seq<Stmt>, check: usize, cont_check: bool)
    requires
        block_free(body),
    ensures
        fl(a, body, check, cont_check).0.exports == a.exports,
    decreases body, 1nat,
{
    lemma_fb_exports(a, body);
}

/// Compiling top-level statements appends their exported names, in order,
/// to the export list.
pub proof fn law_block_exports(a: CState, stmts: Seq<Stmt>)
    requires
        forall|i: int| 0 <= i < stmts.len() ==> top_level_ok(#[trigger] stmts[i]),
    ensures
        fb(a, stmts).exports == a.exports + exported_names(stmts),
    decreases stmts.len(),
{
    if stmts.len() == 0 {
        assert(a.exports + exported_names(stmts) =~= a.exports);
    } else {
        assert forall|i: int| 0 <= i < stmts.drop_last().len() implies top_level_ok(#[trigger] stmts.drop_last()[i]) by {
            assert(stmts.drop_last()[i] == stmts[i]);
        }
        law_block_exports(a, stmts.drop_last());
        let s = fb(a, stmts.drop_last());
        let st = stmts.last();
        assert(fb(a, stmts) == fs(s, st));
        assert(top_level_ok(stmts[stmts.len() - 1]));
        match st.kind {
            StmtKind::Export(inner) => {
                lemma_fs_exports(s, *inner);
                assert(a.exports + exported_names(stmts) =~= match export_name(inner.kind) {
                    Some(n) => (a.exports + exported_names(stmts.drop_last())).push(n),
                    None => a.exports + exported_names(stmts.drop_last()),
                });
            },
            _ => {
                lemma_fs_exports(s, st);
                assert(a.exports + exported_names(stmts) =~= a.exports + exported_names(stmts.drop_last()));
            },
        }
    }
}

/// A program whose exports all stand at top level exports exactly the names
/// of its exported functions, assignments and classes, in order.
pub proof fn law_program_exports(name: Seq<char>, stmts: Seq<Stmt>)
    requires
        forall|i: int| 0 <= i < stmts.len() ==> top_level_ok(#[trigger] stmts[i]),
    ensures
        fprogram(s_new_module(name), stmts).exports == exported_names(stmts),
{
    law_block_exports(s_new_module(name), stmts);
    assert(s_new_module(name).exports + exported_names(stmts) =~= exported_names(stmts));
}

/// `1` for true, `0` for false.
pub open spec fn truth(b: bool) -> int {
    if b {
        1
    } else {
        0
    }
}

/// What an instruction computes from two integer operands (a comparison
/// gives `1` or `0`); `None` for an instruction that is not such an operation.
pub open spec fn int_instr_value(ins: Instr, x: int, y: int) -> Option<int> {
    match ins {
        Instr::AddInt { .. } => Some(x + y),
        Instr::SubInt { .. } => Some(x - y),
        Instr::MulInt { .. } => Some(x * y),
        Instr::DivInt { .. } => Some(x / y),
        Instr::Mod { .. } => Some(x % y),
        Instr::CmpEq { .. } => Some(truth(x == y)),
        Instr::CmpNe { .. } => Some(truth(x != y)),
        Instr::CmpLt { .. } => Some(truth(x < y)),
        Instr::CmpGt { .. } => Some(truth(x > y)),
        Instr::CmpLe { .. } => Some(truth(x <= y)),
        Instr::CmpGe { .. } => Some(truth(x >= y)),
        _ => None,
    }
}

/// The registers an operation reads, left operand first.
pub open spec fn instr_operands(ins: Instr) -> Option<(Reg, Reg)> {
    match ins {
        Instr::AddInt { a, b, .. } => Some((a, b)),
        Instr::SubInt { a, b, .. } => Some((a, b)),
        Instr::MulInt { a, b, .. } => Some((a, b)),
        Instr::DivInt { a, b, .. } => Some((a, b)),
        Instr::Mod { a, b, .. } => Some((a, b)),
        Instr::CmpEq { a, b, .. } => Some((a, b)),
        Instr::CmpNe { a, b, .. } => Some((a, b)),
        Instr::CmpLt { a, b, .. } => Some((a, b)),
        Instr::CmpGt { a, b, .. } => Some((a, b)),
        Instr::CmpLe { a, b, .. } => Some((a, b)),
        Instr::CmpGe { a, b, .. } => Some((a, b)),
        _ => None,
    }
}

/// What a binary operator of the language means on two integers (a
/// comparison gives `1` or `0`); `None` for `and`, `or` and `..`.
pub open spec fn int_op_value(op: BinOp, x: int, y: int) -> Option<int> {
    match op {
        BinOp::Plus => Some(x + y),
        BinOp::Minus => Some(x - y),
        BinOp::Star => Some(x * y),
        BinOp::Slash => Some(x / y),
        BinOp::Percent => Some(x % y),
        BinOp::EqEq => Some(truth(x == y)),
        BinOp::BangEq => Some(truth(x != y)),
        BinOp::Lt => Some(truth(x < y)),
        BinOp::Gt => Some(truth(x > y)),
        BinOp::LtEq => Some(truth(x <= y)),
        BinOp::GtEq => Some(truth(x >= y)),
        _ => None,
    }
}

/// An arithmetic or comparison operator compiles to one instruction, last,
/// that reads the left operand's register then the right one's, writes the
/// result register, and computes the operator: on every pair of integers it
/// gives what the operator means.
pub proof fn law_compiled_operator(a: CState, e: Expr, x: int, y: int)
    requires
        e.kind matches ExprKind::BinOp { op, .. } && int_op_value(op, 0, 1) is Some,
    ensures
        ({
            let (b, r) = cf(a, e);
            match e.kind {
                ExprKind::BinOp { op, left, right } => {
                    let (s1, ra) = cf(a, *left);
                    let (s2, rb) = cf(s1, *right);
                    b.instrs.len() > 0 && (b.instrs.last() matches IV::Plain(ins) && crate::compiler::bytecode::written_reg(ins)
                        == Some(r) && instr_operands(ins) == Some((ra, rb)) && int_instr_value(ins, x, y) == int_op_value(
                        op,
                        x,
                        y,
                    ))
                },
                _ => true,
            }
        }),
{
}

/// When a conditional jump is taken: `Some(false)` when its condition is
/// false, `Some(true)` when it is true; with its condition register and target.
pub open spec fn conditional_jump(ins: Instr) -> Option<(bool, Reg, Addr)> {
    match ins {
        Instr::JumpIfFalse { cond, target } => Some((false, cond, target)),
        Instr::JumpIfTrue { cond, target } => Some((true, cond, target)),
        _ => None,
    }
}

/// `and` and `or` short-circuit: the left value is moved into the result
/// register, then a jump to the end of the expression's code, taken when that
/// value is false for `and` and true for `or`, skips the right operand; the
/// code ends by moving the right value into the same result register.
pub proof fn law_compiled_logic(a: CState, e: Expr)
    requires
        e.kind matches ExprKind::BinOp { op, .. } && (op is And || op is Or),
    ensures
        ({
            let (b, r) = cf(a, e);
            match e.kind {
                ExprKind::BinOp { op, left, right } => {
                    let (s0, d) = s_fresh(a);
                    let (s1, rl) = cf(s0, *left);
                    let jf = (s1.instrs.len() + 1) as int;
                    let s3 = s_emit(
                        s_emit(s1, IV::Plain(Instr::Move { dst: d, src: rl })),
                        IV::Plain(
                            if op is And {
                                Instr::JumpIfFalse { cond: d, target: Addr(0) }
                            } else {
                                Instr::JumpIfTrue { cond: d, target: Addr(0) }
                            },
                        ),
                    );
                    let (s4, rr) = cf(s3, *right);
                    &&& r == d
                    &&& b.instrs.len() == s4.instrs.len() + 1
                    &&& b.instrs[jf - 1] == IV::Plain(Instr::Move { dst: d, src: rl })
                    &&& (b.instrs[jf] matches IV::Plain(j) && conditional_jump(j) == Some((op is Or, d, addr_of(b.instrs.len() as usize))))
                    &&& b.instrs.last() == IV::Plain(Instr::Move { dst: d, src: rr })
                },
                _ => true,
            }
        }),
{
    match e.kind {
        ExprKind::BinOp { op, left, right } => {
            let (s0, d) = s_fresh(a);
            law_expr_pools_grow(s0, *left);
            let (s1, rl) = cf(s0, *left);
            let s2 = s_emit(s1, IV::Plain(Instr::Move { dst: d, src: rl }));
            let j = IV::Plain(if op is And {
                Instr::JumpIfFalse { cond: d, target: Addr(0) }
            } else {
                Instr::JumpIfTrue { cond: d, target: Addr(0) }
            });
            let s3 = s_emit(s2, j);
            law_expr_pools_grow(s3, *right);
            let (s4, rr) = cf(s3, *right);
            let s5 = s_emit(s4, IV::Plain(Instr::Move { dst: d, src: rr }));
            let jf = s2.instrs.len() as int;
            let b = s_patch(s5, jf, s5.instrs.len() as usize, true);
            assert(b == cf(a, e).0);
            assert(s4.instrs.subrange(0, s3.instrs.len() as int) == s3.instrs);
            assert(s4.instrs[jf] == s3.instrs[jf]);
            assert(b.instrs[jf] == patched_v(j, addr_of(s5.instrs.len() as usize), true));
            assert(b.instrs[jf - 1] == s5.instrs[jf - 1]);
            assert(s4.instrs[jf - 1] == s3.instrs[jf - 1]);
            assert(b.instrs[jf] matches IV::Plain(jj) && conditional_jump(jj) == Some((op is Or, d, addr_of(b.instrs.len() as usize))));
        },
        _ => {},
    }
}

/// What a one-operand instruction computes from an integer (logical not
/// gives `1` for zero and `0` otherwise).
pub open spec fn int_unary_instr_value(ins: Instr, x: int) -> Option<int> {
    match ins {
        Instr::Negate { .. } => Some(-x),
        Instr::Not { .. } => Some(truth(x == 0)),
        _ => None,
    }
}

/// What a prefix operator of the language means on an integer.
pub open spec fn int_unary_op_value(op: UnaryOp, x: int) -> int {
    match op {
        UnaryOp::Minus => -x,
        UnaryOp::Not => truth(x == 0),
    }
}

/// The register a one-operand instruction reads.
pub open spec fn unary_operand(ins: Instr) -> Option<Reg> {
    match ins {
        Instr::Negate { src, .. } => Some(src),
        Instr::Not { src, .. } => Some(src),
        _ => None,
    }
}

/// `-x` and `not x` compile to one instruction, last, that reads the
/// operand's register, writes the result register, and on every integer
/// computes what the operator means.
pub proof fn law_compiled_unary(a: CState, e: Expr, x: int)
    requires
        e.kind is UnaryOp,
    ensures
        ({
            let (b, r) = cf(a, e);
            match e.kind {
                ExprKind::UnaryOp { op, expr } => {
                    let (s1, r0) = cf(a, *expr);
                    b.instrs.len() > 0 && (b.instrs.last() matches IV::Plain(ins) && crate::compiler::bytecode::written_reg(ins)
                        == Some(r) && unary_operand(ins) == Some(r0) && int_unary_instr_value(ins, x) == Some(
                        int_unary_op_value(op, x),
                    ))
                },
                _ => true,
            }
        }),
{
}

} // verus!
