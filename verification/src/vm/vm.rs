//! The register machine: executes compiled chunks one instruction at a time.
//!
//! A frame holds a chunk, its instruction pointer and its registers. One step
//! runs the next instruction of the innermost frame: constants, moves,
//! integer arithmetic, jumps, returns and globals. Any other instruction is
//! reported as not implemented. Adding two floats is handed back to the caller,
//! which computes with machine floats and stores the result with `set_register`.

use vstd::prelude::*;
use crate::compiler::bytecode::{FunctionChunk, Instr, Reg, chunk_wf, instr_ok};
use crate::compiler::meaning::{IV, iv};
use crate::vm::copy::{FV, VV, fv, vv, vvs, lemma_vvs_len, lemma_vvs_index};
use crate::vm::value::{Value, all_zero_digits, value_truthy};

verus! {

/// A frame by its contents.
pub struct FrameV {
    pub chunk: FV,
    pub ip: int,
    pub regs: Seq<VV>,
}

/// The machine by its contents: its frames, innermost last, and its globals.
pub struct VMV {
    pub frames: Seq<FrameV>,
    pub globals: Seq<(Seq<char>, VV)>,
}

/// What a step did: go on, stop with a value, or ask the caller to add two
/// floats (given by their text) into register `dst`.
pub enum StepV {
    Continue,
    Halt(VV),
    FloatAdd { dst: Reg, a: Seq<char>, b: Seq<char> },
}

/// The machine with no frames and no globals.
pub open spec fn vm_empty() -> VMV {
    VMV { frames: seq![], globals: seq![] }
}

/// A new innermost frame for chunk `c`: at its first instruction, every register null.
pub open spec fn push_frame(m: VMV, c: FV) -> VMV {
    VMV {
        frames: m.frames.push(FrameV { chunk: c, ip: 0, regs: Seq::new(c.nregs as nat, |i: int| VV::Null) }),
        ..m
    }
}

/// Whether a value counts as true.
pub open spec fn vv_truthy(v: VV) -> bool {
    match v {
        VV::Null => false,
        VV::Bool(b) => b,
        VV::Int(n) => n != 0,
        VV::Float(t) => !all_zero_digits(t),
        VV::Str(s) => s.len() > 0,
        _ => true,
    }
}

/// The first position of global `n`, or `-1`.
pub open spec fn global_index(gs: Seq<(Seq<char>, VV)>, n: Seq<char>, i: int) -> int
    decreases gs.len() - i,
{
    if i < 0 || i >= gs.len() {
        -1
    } else if gs[i].0 == n {
        i
    } else {
        global_index(gs, n, i + 1)
    }
}

pub proof fn lemma_global_index(gs: Seq<(Seq<char>, VV)>, n: Seq<char>, i: int)
    requires
        0 <= i,
    ensures
        global_index(gs, n, i) >= 0 ==> i <= global_index(gs, n, i) < gs.len() && gs[global_index(gs, n, i)].0 == n,
        global_index(gs, n, i) < 0 ==> global_index(gs, n, i) == -1 && forall|k: int| i <= k < gs.len() ==> gs[k].0 != n,
    decreases gs.len() - i,
{
    if i < gs.len() && gs[i].0 != n {
        lemma_global_index(gs, n, i + 1);
    }
}

/// The value of global `n`; null when it is unbound.
pub open spec fn global_get(gs: Seq<(Seq<char>, VV)>, n: Seq<char>) -> VV {
    let i = global_index(gs, n, 0);
    if i >= 0 {
        gs[i].1
    } else {
        VV::Null
    }
}

/// Global `n` set to `v`: its binding replaced, or a new one appended.
pub open spec fn global_set(gs: Seq<(Seq<char>, VV)>, n: Seq<char>, v: VV) -> Seq<(Seq<char>, VV)> {
    let i = global_index(gs, n, 0);
    if i >= 0 {
        gs.update(i, (n, v))
    } else {
        gs.push((n, v))
    }
}

/// Register `r` of the innermost frame set to `v`.
pub open spec fn set_reg(m: VMV, r: Reg, v: VV) -> VMV {
    let f = m.frames.last();
    VMV { frames: m.frames.update(m.frames.len() - 1, FrameV { regs: f.regs.update(r.0 as int, v), ..f }), ..m }
}

/// The instruction pointer of the innermost frame set to `t`.
pub open spec fn set_ip(m: VMV, t: int) -> VMV {
    let f = m.frames.last();
    VMV { frames: m.frames.update(m.frames.len() - 1, FrameV { ip: t, ..f }), ..m }
}

/// The name of an instruction, as errors show it.
pub open spec fn instr_name(ins: Instr) -> Seq<char> {
    match ins {
        Instr::LoadConst { .. } => "LoadConst"@,
        Instr::Move { .. } => "Move"@,
        Instr::AddInt { .. } => "AddInt"@,
        Instr::SubInt { .. } => "SubInt"@,
        Instr::MulInt { .. } => "MulInt"@,
        Instr::DivInt { .. } => "DivInt"@,
        Instr::Mod { .. } => "Mod"@,
        Instr::Negate { .. } => "Negate"@,
        Instr::AddFloat { .. } => "AddFloat"@,
        Instr::SubFloat { .. } => "SubFloat"@,
        Instr::MulFloat { .. } => "MulFloat"@,
        Instr::DivFloat { .. } => "DivFloat"@,
        Instr::CmpEq { .. } => "CmpEq"@,
        Instr::CmpNe { .. } => "CmpNe"@,
        Instr::CmpLt { .. } => "CmpLt"@,
        Instr::CmpGt { .. } => "CmpGt"@,
        Instr::CmpLe { .. } => "CmpLe"@,
        Instr::CmpGe { .. } => "CmpGe"@,
        Instr::And { .. } => "And"@,
        Instr::Or { .. } => "Or"@,
        Instr::Not { .. } => "Not"@,
        Instr::Jump { .. } => "Jump"@,
        Instr::JumpIfFalse { .. } => "JumpIfFalse"@,
        Instr::JumpIfTrue { .. } => "JumpIfTrue"@,
        Instr::Return { .. } => "Return"@,
        Instr::Call { .. } => "Call"@,
        Instr::Spawn { .. } => "Spawn"@,
        Instr::LoadGlobal { .. } => "LoadGlobal"@,
        Instr::StoreGlobal { .. } => "StoreGlobal"@,
        Instr::MakeList { .. } => "MakeList"@,
        Instr::MakeMap { .. } => "MakeMap"@,
        Instr::MakeRange { .. } => "MakeRange"@,
        Instr::MakeStruct { .. } => "MakeStruct"@,
        Instr::Len { .. } => "Len"@,
        Instr::Concat { .. } => "Concat"@,
        Instr::Stringify { .. } => "Stringify"@,
        Instr::MakeError { .. } => "MakeError"@,
        Instr::Propagate { .. } => "Propagate"@,
        Instr::IsError { .. } => "IsError"@,
        Instr::LoadField { .. } => "LoadField"@,
        Instr::StoreField { .. } => "StoreField"@,
        Instr::LoadIndex { .. } => "LoadIndex"@,
        Instr::StoreIndex { .. } => "StoreIndex"@,
        Instr::ForIter { .. } => "ForIter"@,
        Instr::IterNext { .. } => "IterNext"@,
    }
}

/// The result of an integer operation on two values, or `None` when they are
/// not both integers.
pub open spec fn int_op(x: VV, y: VV, op: int) -> Option<i64> {
    match (x, y) {
        (VV::Int(a), VV::Int(b)) => Some(
            if op == 0 {
                a.wrapping_add(b)
            } else if op == 1 {
                a.wrapping_sub(b)
            } else {
                a.wrapping_mul(b)
            },
        ),
        _ => None,
    }
}

/// `a / b` rounded toward zero; `i64::MIN / -1` wraps to `i64::MIN`.
pub open spec fn int_div(a: i64, b: i64) -> i64 {
    match a.checked_div(b) {
        Some(q) => q,
        None => i64::MIN,
    }
}

/// One step of the machine: the machine after it, and what it did or the error.
pub open spec fn spec_step(m: VMV) -> (VMV, Result<StepV, Seq<char>>) {
    if m.frames.len() == 0 {
        (m, Err("No call frame"@))
    } else {
        let f = m.frames.last();
        if f.ip < 0 || f.ip >= f.chunk.instrs.len() {
            (m, Ok(StepV::Halt(VV::Null)))
        } else {
            let m1 = set_ip(m, f.ip + 1);
            match f.chunk.instrs[f.ip] {
                IV::Plain(ins) => match ins {
                    Instr::LoadConst { dst, idx } => (set_reg(m1, dst, f.chunk.consts[idx.0 as int]), Ok(StepV::Continue)),
                    Instr::Move { dst, src } => (set_reg(m1, dst, f.regs[src.0 as int]), Ok(StepV::Continue)),
                    Instr::AddInt { dst, a, b } => match (f.regs[a.0 as int], f.regs[b.0 as int]) {
                        (VV::Int(x), VV::Int(y)) => (set_reg(m1, dst, VV::Int(x.wrapping_add(y))), Ok(StepV::Continue)),
                        (VV::Float(x), VV::Float(y)) => (m1, Ok(StepV::FloatAdd { dst, a: x, b: y })),
                        _ => (m1, Err("Invalid operands for Add"@)),
                    },
                    Instr::SubInt { dst, a, b } => match (f.regs[a.0 as int], f.regs[b.0 as int]) {
                        (VV::Int(x), VV::Int(y)) => (set_reg(m1, dst, VV::Int(x.wrapping_sub(y))), Ok(StepV::Continue)),
                        _ => (m1, Err("Invalid operands for Sub"@)),
                    },
                    Instr::MulInt { dst, a, b } => match (f.regs[a.0 as int], f.regs[b.0 as int]) {
                        (VV::Int(x), VV::Int(y)) => (set_reg(m1, dst, VV::Int(x.wrapping_mul(y))), Ok(StepV::Continue)),
                        _ => (m1, Err("Invalid operands for Mul"@)),
                    },
                    Instr::DivInt { dst, a, b } => match (f.regs[a.0 as int], f.regs[b.0 as int]) {
                        (VV::Int(x), VV::Int(y)) => if y == 0 {
                            (m1, Err("Div by zero"@))
                        } else {
                            (set_reg(m1, dst, VV::Int(int_div(x, y))), Ok(StepV::Continue))
                        },
                        _ => (m1, Err("Invalid operands for Div"@)),
                    },
                    Instr::Jump { target } => (set_ip(m1, target.0 as int), Ok(StepV::Continue)),
                    Instr::JumpIfFalse { cond, target } => if !vv_truthy(f.regs[cond.0 as int]) {
                        (set_ip(m1, target.0 as int), Ok(StepV::Continue))
                    } else {
                        (m1, Ok(StepV::Continue))
                    },
                    Instr::Return { src } => {
                        let val = match src {
                            Some(r) => f.regs[r.0 as int],
                            None => VV::Null,
                        };
                        let m2 = VMV { frames: m.frames.drop_last(), ..m };
                        if m2.frames.len() == 0 {
                            (m2, Ok(StepV::Halt(val)))
                        } else {
                            (m2, Ok(StepV::Continue))
                        }
                    },
                    Instr::LoadGlobal { dst, name } => (
                        set_reg(m1, dst, global_get(m.globals, f.chunk.names[name.0 as int])),
                        Ok(StepV::Continue),
                    ),
                    Instr::StoreGlobal { name, src } => (
                        VMV { globals: global_set(m.globals, f.chunk.names[name.0 as int], f.regs[src.0 as int]), ..m1 },
                        Ok(StepV::Continue),
                    ),
                    _ => (m1, Err("Unimplemented opcode: "@ + instr_name(ins))),
                },
                IV::MakeList { .. } => (m1, Err("Unimplemented opcode: "@ + "MakeList"@)),
                IV::MakeMap { .. } => (m1, Err("Unimplemented opcode: "@ + "MakeMap"@)),
                IV::MakeStruct { .. } => (m1, Err("Unimplemented opcode: "@ + "MakeStruct"@)),
                IV::Call { .. } => (m1, Err("Unimplemented opcode: "@ + "Call"@)),
                IV::Spawn { .. } => (m1, Err("Unimplemented opcode: "@ + "Spawn"@)),
                IV::Concat { .. } => (m1, Err("Unimplemented opcode: "@ + "Concat"@)),
            }
        }
    }
}

proof fn lemma_index_same_keys(a: Seq<(Seq<char>, VV)>, b: Seq<(Seq<char>, VV)>, x: Seq<char>, k: int)
    requires
        a.len() == b.len(),
        forall|p: int| 0 <= p < a.len() ==> (#[trigger] a[p]).0 == b[p].0,
    ensures
        global_index(a, x, k) == global_index(b, x, k),
    decreases a.len() - k,
{
    if 0 <= k < a.len() {
        lemma_index_same_keys(a, b, x, k + 1);
    }
}

proof fn lemma_index_push(a: Seq<(Seq<char>, VV)>, y: (Seq<char>, VV), x: Seq<char>, k: int)
    requires
        0 <= k <= a.len(),
    ensures
        global_index(a.push(y), x, k) == (if global_index(a, x, k) >= 0 {
            global_index(a, x, k)
        } else if y.0 == x {
            a.len() as int
        } else {
            -1
        }),
    decreases a.len() - k,
{
    if k < a.len() {
        assert(a.push(y)[k] == a[k]);
        lemma_index_push(a, y, x, k + 1);
    } else {
        assert(a.push(y)[k] == y);
        assert(global_index(a.push(y), x, k + 1) == -1);
    }
}

/// Reading a global gives back what the last store to it wrote, and a store
/// leaves the other globals as they were.
pub proof fn law_global_read_after_write(gs: Seq<(Seq<char>, VV)>, n: Seq<char>, v: VV, other: Seq<char>)
    requires
        other != n,
    ensures
        global_get(global_set(gs, n, v), n) == v,
        global_get(global_set(gs, n, v), other) == global_get(gs, other),
{
    lemma_global_index(gs, n, 0);
    lemma_global_index(gs, other, 0);
    let i = global_index(gs, n, 0);
    let gs2 = global_set(gs, n, v);
    if i >= 0 {
        assert forall|p: int| 0 <= p < gs.len() implies (#[trigger] gs[p]).0 == gs2[p].0 by {}
        lemma_index_same_keys(gs, gs2, n, 0);
        lemma_index_same_keys(gs, gs2, other, 0);
    } else {
        lemma_index_push(gs, (n, v), n, 0);
        lemma_index_push(gs, (n, v), other, 0);
    }
}

/// The machine's truth test is the language's: `null`, `false`, zero and the
/// empty string are false, every other value true, as `Value::is_truthy` says.
pub proof fn law_truth_is_value_truth(v: Value)
    ensures
        vv_truthy(vv(v)) == value_truthy(v),
        vv_truthy(VV::Null) == false,
        vv_truthy(VV::Bool(false)) == false,
        vv_truthy(VV::Bool(true)) == true,
        vv_truthy(VV::Int(0)) == false,
        v matches Value::Int(n) ==> vv_truthy(vv(v)) == (n != 0),
        v matches Value::Str(t) ==> vv_truthy(vv(v)) == (t@.len() > 0),
        v matches Value::Bool(b) ==> vv_truthy(vv(v)) == b,
{
}

/// A conditional jump on a false condition (`null`, `false`, `0`, `""`) goes to
/// its target; on a true one (`true`, a non-zero integer, a non-empty string)
/// it goes on with the next instruction. Nothing else changes.
pub proof fn law_jump_if_false(m: VMV)
    requires
        m.frames.len() > 0,
        0 <= m.frames.last().ip < m.frames.last().chunk.instrs.len(),
        m.frames.last().chunk.instrs[m.frames.last().ip] matches IV::Plain(Instr::JumpIfFalse { .. }),
    ensures
        ({
            let f = m.frames.last();
            let (cond, target) = match f.chunk.instrs[f.ip] {
                IV::Plain(Instr::JumpIfFalse { cond, target }) => (cond, target),
                _ => (Reg(0), crate::compiler::bytecode::Addr(0)),
            };
            let c = f.regs[cond.0 as int];
            let (m2, r) = spec_step(m);
            let falsy = c == VV::Null || c == VV::Bool(false) || c == VV::Int(0) || c == VV::Str(Seq::<char>::empty());
            let truthy = c == VV::Bool(true) || (c matches VV::Int(n) && n != 0) || (c matches VV::Str(t) && t.len() > 0);
            &&& r == Ok::<StepV, Seq<char>>(StepV::Continue)
            &&& m2.globals == m.globals
            &&& m2.frames.len() == m.frames.len()
            &&& m2.frames.last().regs == f.regs
            &&& falsy ==> m2.frames.last().ip == target.0 as int
            &&& truthy ==> m2.frames.last().ip == f.ip + 1
        }),
{
}

/// `q` is `x / y` rounded toward zero: the remainder `x - q * y` has the
/// sign of `x` (or is zero) and is smaller than `y` in size.
pub open spec fn truncated_quotient(x: int, y: int, q: int) -> bool {
    let rem = x - q * y;
    &&& (rem == 0 || (rem > 0) == (x > 0))
    &&& (if rem >= 0 { rem } else { -rem }) < (if y >= 0 { y } else { -y })
}

/// Division rounded toward zero leaves a remainder of the dividend's sign,
/// smaller than the divisor.
proof fn lemma_trunc_div(x: i64, y: i64)
    requires
        y != 0,
        !(x == i64::MIN && y == -1),
    ensures
        truncated_quotient(x as int, y as int, int_div(x, y) as int),
{
    let xi = x as int;
    let d = y as int;
    if xi > 0 && d > 0 {
        let q = xi / d;
        vstd::arithmetic::div_mod::lemma_fundamental_div_mod(xi, d);
        vstd::arithmetic::div_mod::lemma_mod_pos_bound(xi, d);
        assert(0 <= q <= xi) by (nonlinear_arith)
            requires
                xi > 0,
                d > 0,
                q == xi / d,
        ;
        assert(xi - q * d == xi % d) by (nonlinear_arith)
            requires
                xi == d * q + xi % d,
        ;
        assert(int_div(x, y) as int == q);
    } else if xi < 0 && d < 0 {
        let q = (-xi) / (-d);
        vstd::arithmetic::div_mod::lemma_fundamental_div_mod(-xi, -d);
        vstd::arithmetic::div_mod::lemma_mod_pos_bound(-xi, -d);
        let r = (-xi) % (-d);
        assert(0 <= q <= -xi) by (nonlinear_arith)
            requires
                -xi > 0,
                -d > 0,
                q == (-xi) / (-d),
        ;
        assert(q <= i64::MAX) by (nonlinear_arith)
            requires
                -xi == (-d) * q + r,
                0 <= r,
                0 <= q,
                -d >= 1,
                xi >= i64::MIN,
                d == -1 ==> xi > i64::MIN,
        ;
        assert(xi - q * d == -r) by (nonlinear_arith)
            requires
                -xi == (-d) * q + r,
        ;
        assert(int_div(x, y) as int == q);
    } else if xi < 0 && d > 0 {
        let q0 = (-xi) / d;
        vstd::arithmetic::div_mod::lemma_fundamental_div_mod(-xi, d);
        vstd::arithmetic::div_mod::lemma_mod_pos_bound(-xi, d);
        let r = (-xi) % d;
        assert(0 <= q0 <= -xi) by (nonlinear_arith)
            requires
                -xi > 0,
                d > 0,
                q0 == (-xi) / d,
        ;
        assert(xi - (q0 * -1) * d == -r) by (nonlinear_arith)
            requires
                -xi == d * q0 + r,
        ;
        assert(int_div(x, y) as int == q0 * -1);
    } else if xi > 0 && d < 0 {
        let q0 = xi / (-d);
        vstd::arithmetic::div_mod::lemma_fundamental_div_mod(xi, -d);
        vstd::arithmetic::div_mod::lemma_mod_pos_bound(xi, -d);
        let r = xi % (-d);
        assert(0 <= q0 <= xi) by (nonlinear_arith)
            requires
                xi > 0,
                -d > 0,
                q0 == xi / (-d),
        ;
        assert(xi - (q0 * -1) * d == r) by (nonlinear_arith)
            requires
                xi == (-d) * q0 + r,
        ;
        assert(int_div(x, y) as int == q0 * -1);
    } else {
        assert(int_div(x, y) == 0);
    }
}

/// Both operands of an operation on frame `f` hold integers, and its
/// destination is a register of the frame.
pub open spec fn int_regs(f: FrameV, dst: Reg, a: Reg, b: Reg) -> bool {
    &&& (dst.0 as int) < f.regs.len()
    &&& f.regs[a.0 as int] is Int
    &&& f.regs[b.0 as int] is Int
}

/// The view of the register `r` of the innermost frame after a step.
pub open spec fn reg_after(m: VMV, r: Reg) -> VV {
    spec_step(m).0.frames.last().regs[r.0 as int]
}

/// Integer arithmetic: on two integer registers whose exact result fits in
/// 64 bits, `+`, `-` and `*` put the mathematical sum, difference and product
/// in the destination; division puts the quotient rounded toward zero (so
/// that quotient times divisor plus remainder gives back the dividend, the
/// remainder smaller than the divisor and of the dividend's sign), and a zero
/// divisor is an error. Execution goes on with the next instruction. (The
/// destination is a register of the frame.)
pub proof fn law_integer_step(m: VMV)
    requires
        m.frames.len() > 0,
        0 <= m.frames.last().ip < m.frames.last().chunk.instrs.len(),
    ensures
        ({
            let f = m.frames.last();
            let (m2, r) = spec_step(m);
            match f.chunk.instrs[f.ip] {
                IV::Plain(Instr::AddInt { dst, a, b }) => int_regs(f, dst, a, b) ==> ({
                    let (x, y) = (f.regs[a.0 as int]->Int_0 as int, f.regs[b.0 as int]->Int_0 as int);
                    i64::MIN <= x + y <= i64::MAX ==> r == Ok::<StepV, Seq<char>>(StepV::Continue)
                        && reg_after(m, dst) == VV::Int((x + y) as i64) && m2.frames.last().ip == f.ip + 1
                }),
                IV::Plain(Instr::SubInt { dst, a, b }) => int_regs(f, dst, a, b) ==> ({
                    let (x, y) = (f.regs[a.0 as int]->Int_0 as int, f.regs[b.0 as int]->Int_0 as int);
                    i64::MIN <= x - y <= i64::MAX ==> r == Ok::<StepV, Seq<char>>(StepV::Continue)
                        && reg_after(m, dst) == VV::Int((x - y) as i64)
                }),
                IV::Plain(Instr::MulInt { dst, a, b }) => int_regs(f, dst, a, b) ==> ({
                    let (x, y) = (f.regs[a.0 as int]->Int_0 as int, f.regs[b.0 as int]->Int_0 as int);
                    i64::MIN <= x * y <= i64::MAX ==> r == Ok::<StepV, Seq<char>>(StepV::Continue)
                        && reg_after(m, dst) == VV::Int((x * y) as i64)
                }),
                IV::Plain(Instr::DivInt { dst, a, b }) => int_regs(f, dst, a, b) ==> ({
                    let (x, y) = (f.regs[a.0 as int]->Int_0 as int, f.regs[b.0 as int]->Int_0 as int);
                    &&& y == 0 ==> r == Err::<StepV, Seq<char>>("Div by zero"@)
                    &&& (y != 0 && !(x == i64::MIN && y == -1)) ==> r == Ok::<StepV, Seq<char>>(StepV::Continue)
                        && reg_after(m, dst) is Int && truncated_quotient(x, y, reg_after(m, dst)->Int_0 as int)
                }),
                _ => true,
            }
        }),
{
    let f = m.frames.last();
    match f.chunk.instrs[f.ip] {
        IV::Plain(Instr::DivInt { dst, a, b }) => {
            if let (VV::Int(x), VV::Int(y)) = (f.regs[a.0 as int], f.regs[b.0 as int]) {
                if y != 0 && !(x == i64::MIN && y == -1) {
                    lemma_trunc_div(x, y);
                }
            }
        },
        _ => {},
    }
}

/// Moving data: a constant load puts the chunk's constant in the destination,
/// a move copies the source register, a jump goes to its target, a store to a
/// global makes a later load of that name give the stored value, a load of a
/// global gives what it holds, and a return from the outermost frame stops
/// with the returned register's value (null for a bare return).
pub proof fn law_data_step(m: VMV)
    requires
        m.frames.len() > 0,
        0 <= m.frames.last().ip < m.frames.last().chunk.instrs.len(),
    ensures
        ({
            let f = m.frames.last();
            let (m2, r) = spec_step(m);
            match f.chunk.instrs[f.ip] {
                IV::Plain(Instr::LoadConst { dst, idx }) => (dst.0 as int) < f.regs.len() ==> reg_after(m, dst)
                    == f.chunk.consts[idx.0 as int] && m2.frames.last().ip == f.ip + 1,
                IV::Plain(Instr::Move { dst, src }) => (dst.0 as int) < f.regs.len() ==> reg_after(m, dst)
                    == f.regs[src.0 as int],
                IV::Plain(Instr::Jump { target }) => m2.frames.last().ip == target.0 as int,
                IV::Plain(Instr::StoreGlobal { name, src }) => global_get(m2.globals, f.chunk.names[name.0 as int])
                    == f.regs[src.0 as int],
                IV::Plain(Instr::LoadGlobal { dst, name }) => (dst.0 as int) < f.regs.len() ==> reg_after(m, dst)
                    == global_get(m.globals, f.chunk.names[name.0 as int]),
                IV::Plain(Instr::Return { src }) => m.frames.len() == 1 ==> m2.frames.len() == 0 && r == Ok::<StepV, Seq<char>>(
                    StepV::Halt(
                        match src {
                            Some(x) => f.regs[x.0 as int],
                            None => VV::Null,
                        },
                    ),
                ),
                _ => true,
            }
        }),
{
    let f = m.frames.last();
    if let IV::Plain(Instr::StoreGlobal { name, src }) = f.chunk.instrs[f.ip] {
        let n = f.chunk.names[name.0 as int];
        assert(n.push('x').len() != n.len());
        law_global_read_after_write(m.globals, n, f.regs[src.0 as int], n.push('x'));
    }
}

/// A frame: a chunk, the position of its next instruction, its registers.
pub struct CallFrame {
    pub chunk: FunctionChunk,
    pub ip: usize,
    pub regs: Vec<Value>,
}

/// What a step did.
pub enum Step {
    Continue,
    Halt(Value),
    FloatAdd { dst: Reg, a: String, b: String },
}

/// The view of a step's outcome.
pub open spec fn view_step(r: Result<Step, String>) -> Result<StepV, Seq<char>> {
    match r {
        Ok(Step::Continue) => Ok(StepV::Continue),
        Ok(Step::Halt(v)) => Ok(StepV::Halt(vv(v))),
        Ok(Step::FloatAdd { dst, a, b }) => Ok(StepV::FloatAdd { dst, a: a@, b: b@ }),
        Err(e) => Err(e@),
    }
}

/// The view of a frame.
pub open spec fn frame_v(f: CallFrame) -> FrameV {
    FrameV { chunk: fv(f.chunk), ip: f.ip as int, regs: f.regs@.map_values(|x: Value| vv(x)) }
}

/// The view of a list of globals.
pub open spec fn globals_v(gs: Seq<(String, Value)>) -> Seq<(Seq<char>, VV)> {
    gs.map_values(|e: (String, Value)| (e.0@, vv(e.1)))
}

/// The register machine.
pub struct VM {
    pub frames: Vec<CallFrame>,
    pub globals: Vec<(String, Value)>,
}

impl View for VM {
    type V = VMV;

    open spec fn view(&self) -> VMV {
        VMV { frames: self.frames@.map_values(|f: CallFrame| frame_v(f)), globals: globals_v(self.globals@) }
    }
}

/// A frame that can run: a well-formed chunk and one register per register it uses.
pub open spec fn frame_ok(f: CallFrame) -> bool {
    chunk_wf(f.chunk) && f.regs@.len() == f.chunk.num_registers
}

/// No name is bound twice.
pub open spec fn globals_distinct(gs: Seq<(String, Value)>) -> bool {
    forall|i: int, j: int| 0 <= i < j < gs.len() ==> gs[i].0@ != gs[j].0@
}

/// The name of an instruction, as errors show it.
pub fn instr_name_of(ins: &Instr) -> (r: &'static str)
    ensures
        r@ == instr_name(*ins),
{
    match ins {
            Instr::LoadConst { .. } => "LoadConst",
            Instr::Move { .. } => "Move",
            Instr::AddInt { .. } => "AddInt",
            Instr::SubInt { .. } => "SubInt",
            Instr::MulInt { .. } => "MulInt",
            Instr::DivInt { .. } => "DivInt",
            Instr::Mod { .. } => "Mod",
            Instr::Negate { .. } => "Negate",
            Instr::AddFloat { .. } => "AddFloat",
            Instr::SubFloat { .. } => "SubFloat",
            Instr::MulFloat { .. } => "MulFloat",
            Instr::DivFloat { .. } => "DivFloat",
            Instr::CmpEq { .. } => "CmpEq",
            Instr::CmpNe { .. } => "CmpNe",
            Instr::CmpLt { .. } => "CmpLt",
            Instr::CmpGt { .. } => "CmpGt",
            Instr::CmpLe { .. } => "CmpLe",
            Instr::CmpGe { .. } => "CmpGe",
            Instr::And { .. } => "And",
            Instr::Or { .. } => "Or",
            Instr::Not { .. } => "Not",
            Instr::Jump { .. } => "Jump",
            Instr::JumpIfFalse { .. } => "JumpIfFalse",
            Instr::JumpIfTrue { .. } => "JumpIfTrue",
            Instr::Return { .. } => "Return",
            Instr::Call { .. } => "Call",
            Instr::Spawn { .. } => "Spawn",
            Instr::LoadGlobal { .. } => "LoadGlobal",
            Instr::StoreGlobal { .. } => "StoreGlobal",
            Instr::MakeList { .. } => "MakeList",
            Instr::MakeMap { .. } => "MakeMap",
            Instr::MakeRange { .. } => "MakeRange",
            Instr::MakeStruct { .. } => "MakeStruct",
            Instr::Len { .. } => "Len",
            Instr::Concat { .. } => "Concat",
            Instr::Stringify { .. } => "Stringify",
            Instr::MakeError { .. } => "MakeError",
            Instr::Propagate { .. } => "Propagate",
            Instr::IsError { .. } => "IsError",
            Instr::LoadField { .. } => "LoadField",
            Instr::StoreField { .. } => "StoreField",
            Instr::LoadIndex { .. } => "LoadIndex",
            Instr::StoreIndex { .. } => "StoreIndex",
            Instr::ForIter { .. } => "ForIter",
            Instr::IterNext { .. } => "IterNext",
    }
}

/// `Unimplemented opcode: <name>`.
fn unimplemented(ins: &Instr) -> (r: String)
    ensures
        r@ == "Unimplemented opcode: "@ + instr_name(*ins),
{
    let mut m = "Unimplemented opcode: ".to_owned();
    m.append(instr_name_of(ins));
    m
}

impl VM {
    /// Every frame can run and every global is bound once.
    pub open spec fn wf(&self) -> bool {
        &&& forall|i: int| 0 <= i < self.frames@.len() ==> frame_ok(#[trigger] self.frames@[i])
        &&& globals_distinct(self.globals@)
    }

    /// A machine with no frames and no globals.
    pub fn new() -> (r: VM)
        ensures
            r.wf(),
            r@ == vm_empty(),
    {
        let r = VM { frames: Vec::new(), globals: Vec::new() };
        assert(r@.frames =~= Seq::<FrameV>::empty());
        assert(r@.globals =~= Seq::<(Seq<char>, VV)>::empty());
        r
    }

    /// Starts running `chunk` in a new innermost frame.
    pub fn push_chunk(&mut self, chunk: FunctionChunk)
        requires
            old(self).wf(),
            chunk_wf(chunk),
        ensures
            final(self).wf(),
            final(self)@ == push_frame(old(self)@, fv(chunk)),
    {
        let n = chunk.num_registers as usize;
        let mut regs: Vec<Value> = Vec::new();
        let mut i: usize = 0;
        while i < n
            invariant
                i <= n,
                regs@.len() == i,
                forall|k: int| 0 <= k < i ==> #[trigger] regs@[k] == Value::Null,
            decreases n - i,
        {
            regs.push(Value::Null);
            i = i + 1;
        }
        let ghost c = fv(chunk);
        let f = CallFrame { chunk, ip: 0, regs };
        proof {
            assert(frame_v(f).regs =~= Seq::new(c.nregs as nat, |k: int| VV::Null));
        }
        let ghost before = self.frames@;
        self.frames.push(f);
        proof {
            assert(self@.frames =~= old(self)@.frames.push(frame_v(f)));
            assert forall|k: int| 0 <= k < self.frames@.len() implies frame_ok(#[trigger] self.frames@[k]) by {
                if k < before.len() {
                    assert(self.frames@[k] == before[k]);
                }
            }
        }
    }

    /// Register `dst` of the innermost frame set to `v` (the result of a float addition).
    pub fn set_register(&mut self, dst: Reg, v: Value)
        requires
            old(self).wf(),
            old(self).frames@.len() > 0,
            (dst.0 as int) < old(self).frames@.last().regs@.len(),
        ensures
            final(self).wf(),
            final(self)@ == set_reg(old(self)@, dst, vv(v)),
    {
        let mut f = self.frames.pop().unwrap();
        proof {
            assert(frame_ok(f));
        }
        let ghost fr = f;
        f.regs.set(dst.0 as usize, v);
        self.push_back(f);
        proof {
            assert(frame_v(f).regs =~= frame_v(fr).regs.update(dst.0 as int, vv(v)));
            assert(self@.frames =~= old(self)@.frames.update(old(self)@.frames.len() - 1, FrameV { regs: frame_v(fr).regs.update(dst.0 as int, vv(v)), ..frame_v(fr) }));
        }
    }

    /// Puts frame `f` back as the innermost one.
    fn push_back(&mut self, f: CallFrame)
        requires
            frame_ok(f),
            forall|i: int| 0 <= i < old(self).frames@.len() ==> frame_ok(#[trigger] old(self).frames@[i]),
            globals_distinct(old(self).globals@),
        ensures
            final(self).wf(),
            final(self).frames@ == old(self).frames@.push(f),
            final(self).globals@ == old(self).globals@,
            final(self)@.frames == old(self)@.frames.push(frame_v(f)),
            final(self)@.globals == old(self)@.globals,
    {
        let ghost before = self.frames@;
        self.frames.push(f);
        proof {
            assert(self@.frames =~= old(self)@.frames.push(frame_v(f)));
            assert forall|k: int| 0 <= k < self.frames@.len() implies frame_ok(#[trigger] self.frames@[k]) by {
                if k < before.len() {
                    assert(self.frames@[k] == before[k]);
                }
            }
        }
    }

    /// The position of global `name`, if it is bound.
    fn find_global(&self, name: &String) -> (r: Option<usize>)
        ensures
            match r {
                Some(i) => i < self.globals@.len() && global_index(self@.globals, name@, 0) == i as int,
                None => global_index(self@.globals, name@, 0) == -1,
            },
    {
        let mut i: usize = 0;
        while i < self.globals.len()
            invariant
                i <= self.globals@.len(),
                global_index(self@.globals, name@, 0) == global_index(self@.globals, name@, i as int),
            decreases self.globals@.len() - i,
        {
            if self.globals[i].0 == *name {
                return Some(i);
            }
            i = i + 1;
        }
        None
    }

    /// Runs the next instruction of the innermost frame.
    #[verifier::spinoff_prover]
    #[verifier::rlimit(100)]
    pub fn step(&mut self) -> (r: Result<Step, String>)
        requires
            old(self).wf(),
        ensures
            final(self).wf(),
            (final(self)@, view_step(r)) == spec_step(old(self)@),
    {
        let n = self.frames.len();
        if n == 0 {
            return Err("No call frame".to_owned());
        }
        let ip = self.frames[n - 1].ip;
        if ip >= self.frames[n - 1].chunk.instrs.len() {
            return Ok(Step::Halt(Value::Null));
        }
        let ghost m = self@;
        let mut f = self.frames.pop().unwrap();
        proof {
            assert(frame_ok(f));
            assert(old(self).frames@[n - 1] == f);
            assert(instr_ok(f.chunk.instrs@[ip as int], f.chunk.constants@.len() as int, f.chunk.names@.len() as int,
                f.chunk.num_registers as int, f.chunk.instrs@.len() as int));
            lemma_vvs_len(f.chunk.constants@);
            assert(m.frames.last() == frame_v(f));
            assert(m.frames.drop_last() =~= self@.frames);
        }
        f.ip = ip + 1;
        let ghost f1 = f;
        let ghost m1 = set_ip(m, ip + 1);
        proof {
            assert(m1.frames =~= self@.frames.push(frame_v(f1)));
        }
        let ins = f.chunk.instrs[ip].dup();
        proof {
            assert(frame_v(f).chunk.instrs[ip as int] == iv(f.chunk.instrs@[ip as int]));
        }
        match ins {
            Instr::LoadConst { dst, idx } => {
                let v = f.chunk.constants[idx.0 as usize].dup();
                proof {
                    lemma_vvs_index(f.chunk.constants@, idx.0 as int);
                }
                f.regs.set(dst.0 as usize, v);
                let ghost fz = f;
                self.push_back(f);
                proof {
                    assert(frame_v(fz).regs =~= frame_v(f1).regs.update(dst.0 as int, vv(v)));
                    assert(frame_v(fz) == (FrameV { regs: frame_v(f1).regs.update(dst.0 as int, vv(v)), ..frame_v(f1) }));
                    assert(self@.frames =~= set_reg(m1, dst, vv(v)).frames);
                }
                Ok(Step::Continue)
            },
            Instr::Move { dst, src } => {
                let v = f.regs[src.0 as usize].dup();
                f.regs.set(dst.0 as usize, v);
                let ghost fz = f;
                self.push_back(f);
                proof {
                    assert(frame_v(fz).regs =~= frame_v(f1).regs.update(dst.0 as int, vv(v)));
                    assert(frame_v(fz) == (FrameV { regs: frame_v(f1).regs.update(dst.0 as int, vv(v)), ..frame_v(f1) }));
                    assert(self@.frames =~= set_reg(m1, dst, vv(v)).frames);
                }
                Ok(Step::Continue)
            },
            Instr::AddInt { dst, a, b } => {
                let out = match (&f.regs[a.0 as usize], &f.regs[b.0 as usize]) {
                    (Value::Int(x), Value::Int(y)) => Ok(Ok(x.wrapping_add(*y))),
                    (Value::Float(x), Value::Float(y)) => Ok(Err((x.clone(), y.clone()))),
                    _ => Err(()),
                };
                match out {
                    Ok(Ok(z)) => {
                        f.regs.set(dst.0 as usize, Value::Int(z));
                        let ghost fz = f;
                        self.push_back(f);
                        proof {
                            assert(frame_v(fz).regs =~= frame_v(f1).regs.update(dst.0 as int, VV::Int(z)));
                            assert(frame_v(fz) == (FrameV { regs: frame_v(f1).regs.update(dst.0 as int, VV::Int(z)), ..frame_v(f1) }));
                            assert(self@.frames =~= set_reg(m1, dst, VV::Int(z)).frames);
                        }
                        Ok(Step::Continue)
                    },
                    Ok(Err((x, y))) => {
                        self.push_back(f);
                        Ok(Step::FloatAdd { dst, a: x, b: y })
                    },
                    Err(_) => {
                        self.push_back(f);
                        Err("Invalid operands for Add".to_owned())
                    },
                }
            },
            Instr::SubInt { dst, a, b } => {
                let out = match (&f.regs[a.0 as usize], &f.regs[b.0 as usize]) {
                    (Value::Int(x), Value::Int(y)) => Some(x.wrapping_sub(*y)),
                    _ => None,
                };
                match out {
                    Some(z) => {
                        f.regs.set(dst.0 as usize, Value::Int(z));
                        let ghost fz = f;
                        self.push_back(f);
                        proof {
                            assert(frame_v(fz).regs =~= frame_v(f1).regs.update(dst.0 as int, VV::Int(z)));
                            assert(frame_v(fz) == (FrameV { regs: frame_v(f1).regs.update(dst.0 as int, VV::Int(z)), ..frame_v(f1) }));
                            assert(self@.frames =~= set_reg(m1, dst, VV::Int(z)).frames);
                        }
                        Ok(Step::Continue)
                    },
                    None => {
                        self.push_back(f);
                        Err("Invalid operands for Sub".to_owned())
                    },
                }
            },
            Instr::MulInt { dst, a, b } => {
                let out = match (&f.regs[a.0 as usize], &f.regs[b.0 as usize]) {
                    (Value::Int(x), Value::Int(y)) => Some(x.wrapping_mul(*y)),
                    _ => None,
                };
                match out {
                    Some(z) => {
                        f.regs.set(dst.0 as usize, Value::Int(z));
                        let ghost fz = f;
                        self.push_back(f);
                        proof {
                            assert(frame_v(fz).regs =~= frame_v(f1).regs.update(dst.0 as int, VV::Int(z)));
                            assert(frame_v(fz) == (FrameV { regs: frame_v(f1).regs.update(dst.0 as int, VV::Int(z)), ..frame_v(f1) }));
                            assert(self@.frames =~= set_reg(m1, dst, VV::Int(z)).frames);
                        }
                        Ok(Step::Continue)
                    },
                    None => {
                        self.push_back(f);
                        Err("Invalid operands for Mul".to_owned())
                    },
                }
            },
            Instr::DivInt { dst, a, b } => {
                let out = match (&f.regs[a.0 as usize], &f.regs[b.0 as usize]) {
                    (Value::Int(x), Value::Int(y)) => Some((*x, *y)),
                    _ => None,
                };
                match out {
                    Some((x, y)) => {
                        if y == 0 {
                            self.push_back(f);
                            return Err("Div by zero".to_owned());
                        }
                        let z = match x.checked_div(y) {
                            Some(q) => q,
                            None => i64::MIN,
                        };
                        f.regs.set(dst.0 as usize, Value::Int(z));
                        let ghost fz = f;
                        self.push_back(f);
                        proof {
                            assert(frame_v(fz).regs =~= frame_v(f1).regs.update(dst.0 as int, VV::Int(z)));
                            assert(frame_v(fz) == (FrameV { regs: frame_v(f1).regs.update(dst.0 as int, VV::Int(z)), ..frame_v(f1) }));
                            assert(self@.frames =~= set_reg(m1, dst, VV::Int(z)).frames);
                        }
                        Ok(Step::Continue)
                    },
                    None => {
                        self.push_back(f);
                        Err("Invalid operands for Div".to_owned())
                    },
                }
            },
            Instr::Jump { target } => {
                f.ip = target.0 as usize;
                self.push_back(f);
                proof {
                    assert(self@.frames =~= set_ip(m1, target.0 as int).frames);
                }
                Ok(Step::Continue)
            },
            Instr::JumpIfFalse { cond, target } => {
                if !f.regs[cond.0 as usize].is_truthy() {
                    f.ip = target.0 as usize;
                    self.push_back(f);
                    proof {
                        assert(self@.frames =~= set_ip(m1, target.0 as int).frames);
                    }
                } else {
                    self.push_back(f);
                }
                Ok(Step::Continue)
            },
            Instr::Return { src } => {
                let val = match src {
                    Some(r) => f.regs[r.0 as usize].dup(),
                    None => Value::Null,
                };
                if self.frames.len() == 0 {
                    Ok(Step::Halt(val))
                } else {
                    Ok(Step::Continue)
                }
            },
            Instr::LoadGlobal { dst, name } => {
                let nm = f.chunk.names[name.0 as usize].clone();
                let v = match self.find_global(&nm) {
                    Some(i) => self.globals[i].1.dup(),
                    None => Value::Null,
                };
                f.regs.set(dst.0 as usize, v);
                let ghost fz = f;
                self.push_back(f);
                proof {
                    assert(frame_v(f1).chunk.names[name.0 as int] == nm@);
                    assert(frame_v(fz).regs =~= frame_v(f1).regs.update(dst.0 as int, vv(v)));
                    assert(frame_v(fz) == (FrameV { regs: frame_v(f1).regs.update(dst.0 as int, vv(v)), ..frame_v(f1) }));
                    assert(self@.frames =~= set_reg(m1, dst, vv(v)).frames);
                }
                Ok(Step::Continue)
            },
            Instr::StoreGlobal { name, src } => {
                let nm = f.chunk.names[name.0 as usize].clone();
                let v = f.regs[src.0 as usize].dup();
                let ghost gs = self@.globals;
                let ghost eg = self.globals@;
                proof {
                    lemma_global_index(gs, nm@, 0);
                }
                match self.find_global(&nm) {
                    Some(i) => {
                        self.globals.set(i, (nm, v));
                        proof {
                            assert(self@.globals =~= gs.update(i as int, (nm@, vv(v))));
                            assert forall|p: int, q: int| 0 <= p < q < self.globals@.len() implies self.globals@[p].0@
                                != self.globals@[q].0@ by {
                                assert(eg[i as int].0@ == nm@);
                                if p != i as int {
                                    assert(self.globals@[p] == eg[p]);
                                }
                                if q != i as int {
                                    assert(self.globals@[q] == eg[q]);
                                }
                            }
                        }
                    },
                    None => {
                        self.globals.push((nm, v));
                        proof {
                            assert(self@.globals =~= gs.push((nm@, vv(v))));
                            assert forall|p: int, q: int| 0 <= p < q < self.globals@.len() implies self.globals@[p].0@
                                != self.globals@[q].0@ by {
                                assert(self.globals@[p] == eg[p]);
                                if q < eg.len() {
                                    assert(self.globals@[q] == eg[q]);
                                } else {
                                    assert(gs[p].0 == eg[p].0@);
                                }
                            }
                        }
                    },
                }
                proof {
                    assert(frame_v(f1).chunk.names[name.0 as int] == nm@);
                }
                self.push_back(f);
                Ok(Step::Continue)
            },
            _ => {
                self.push_back(f);
                Err(unimplemented(&ins))
            },
        }
    }

    /// The globals, each with a copy of its value.
    pub fn global_entries(&self) -> (r: Vec<(String, Value)>)
        ensures
            globals_v(r@) == self@.globals,
    {
        let mut out: Vec<(String, Value)> = Vec::new();
        let mut i: usize = 0;
        while i < self.globals.len()
            invariant
                i <= self.globals@.len(),
                globals_v(out@) == globals_v(self.globals@.take(i as int)),
            decreases self.globals@.len() - i,
        {
            let k = self.globals[i].0.clone();
            let v = self.globals[i].1.dup();
            let ghost prev = out@;
            out.push((k, v));
            proof {
                assert(globals_v(out@) =~= globals_v(prev).push((k@, vv(v))));
                assert(globals_v(self.globals@.take(i + 1)) =~= globals_v(self.globals@.take(i as int)).push(
                    (self.globals@[i as int].0@, vv(self.globals@[i as int].1)),
                ));
            }
            i = i + 1;
        }
        assert(self.globals@.take(self.globals@.len() as int) =~= self.globals@);
        out
    }

    /// Loading modules at run time is not supported by this machine.
    pub fn load_module(&mut self, source: &str) -> (r: Result<Value, String>)
        ensures
            r matches Err(e) && e@ == "module loading is not implemented yet"@,
            final(self)@ == old(self)@,
    {
        Err("module loading is not implemented yet".to_owned())
    }
}

} // verus!
