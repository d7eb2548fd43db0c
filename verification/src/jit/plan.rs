//! What the native code generator emits for a chunk: one integer variable per
//! register, and an operation for each arithmetic or return instruction.
//! Other instructions are not compiled natively yet and emit nothing.

use vstd::prelude::*;
use crate::compiler::bytecode::{FunctionChunk, Instr};

verus! {

/// One native operation on 64-bit integer variables named by register.
#[derive(Debug, Clone, Copy, PartialEq, Eq, Structural)]
pub enum NativeOp {
    Add { dst: u8, a: u8, b: u8 },
    Sub { dst: u8, a: u8, b: u8 },
    Mul { dst: u8, a: u8, b: u8 },
    /// Returns the variable of the register, or the constant 0.
    Return(Option<u8>),
}

/// The native operation for one instruction, if it has one.
pub open spec fn native_op(ins: Instr) -> Option<NativeOp> {
    match ins {
        Instr::AddInt { dst, a, b } => Some(NativeOp::Add { dst: dst.0, a: a.0, b: b.0 }),
        Instr::SubInt { dst, a, b } => Some(NativeOp::Sub { dst: dst.0, a: a.0, b: b.0 }),
        Instr::MulInt { dst, a, b } => Some(NativeOp::Mul { dst: dst.0, a: a.0, b: b.0 }),
        Instr::Return { src } => Some(NativeOp::Return(match src {
            Some(r) => Some(r.0),
            None => None,
        })),
        _ => None,
    }
}

/// The native operations of a list of instructions, in order.
pub open spec fn native_ops(instrs: Seq<Instr>) -> Seq<NativeOp>
    decreases instrs.len(),
{
    if instrs.len() == 0 {
        seq![]
    } else {
        let rest = native_ops(instrs.drop_last());
        match native_op(instrs.last()) {
            Some(op) => rest.push(op),
            None => rest,
        }
    }
}

/// How many integer variables the native function declares: one per register,
/// and never fewer than 256.
pub open spec fn native_var_count(chunk: FunctionChunk) -> nat {
    if chunk.num_registers >= 256 {
        chunk.num_registers as nat
    } else {
        256
    }
}

/// The plan for compiling `chunk` natively: the variable count and the operations.
pub fn translate_plan(chunk: &FunctionChunk) -> (r: (usize, Vec<NativeOp>))
    ensures
        r.0 == native_var_count(*chunk),
        r.1@ == native_ops(chunk.instrs@),
{
    let vars: usize = if chunk.num_registers >= 256 {
        chunk.num_registers as usize
    } else {
        256
    };
    let mut ops: Vec<NativeOp> = Vec::new();
    let mut i: usize = 0;
    while i < chunk.instrs.len()
        invariant
            i <= chunk.instrs@.len(),
            ops@ == native_ops(chunk.instrs@.take(i as int)),
        decreases chunk.instrs@.len() - i,
    {
        let ghost s = chunk.instrs@;
        assert(s.take(i + 1).drop_last() =~= s.take(i as int));
        assert(s.take(i + 1).last() == s[i as int]);
        let op = match &chunk.instrs[i] {
            Instr::AddInt { dst, a, b } => Some(NativeOp::Add { dst: dst.0, a: a.0, b: b.0 }),
            Instr::SubInt { dst, a, b } => Some(NativeOp::Sub { dst: dst.0, a: a.0, b: b.0 }),
            Instr::MulInt { dst, a, b } => Some(NativeOp::Mul { dst: dst.0, a: a.0, b: b.0 }),
            Instr::Return { src } => Some(NativeOp::Return(match src {
                Some(r) => Some(r.0),
                None => None,
            })),
            _ => None,
        };
        match op {
            Some(o) => ops.push(o),
            None => {},
        }
        i = i + 1;
    }
    assert(chunk.instrs@.take(chunk.instrs@.len() as int) =~= chunk.instrs@);
    (vars, ops)
}

} // verus!
