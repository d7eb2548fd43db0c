//! An SSA intermediate form for the optimising tier.

use vstd::prelude::*;
use crate::vm::value::Value;

verus! {

/// An SSA value.
#[derive(Debug, Clone, Copy, PartialEq, Eq, Hash, Structural)]
pub struct IrVal(pub u32);

pub enum Inst {
    Const(Value),
    Add(IrVal, IrVal),
    Sub(IrVal, IrVal),
    Mul(IrVal, IrVal),
    Phi(Vec<IrVal>),
    /// A value, the type it is expected to have, and the deoptimisation point taken otherwise.
    Guard(IrVal, IrType, u32),
    Return(IrVal),
}

#[derive(Debug, Clone, Copy, PartialEq, Eq, Structural)]
pub enum IrType {
    Int,
    Float,
    Bool,
    Ptr,
}

pub struct BasicBlock {
    pub insts: Vec<(IrVal, Inst)>,
    pub terminator: Terminator,
}

pub enum Terminator {
    Jump(u32),
    Branch(IrVal, u32, u32),
    Return(IrVal),
}

/// A function in SSA form: its blocks, and the number of the next fresh value.
pub struct SSA {
    pub blocks: Vec<BasicBlock>,
    pub next_val: u32,
}

impl SSA {
    pub fn new() -> (r: SSA)
        ensures
            r.blocks@.len() == 0,
            r.next_val == 0,
    {
        SSA { blocks: Vec::new(), next_val: 0 }
    }

    /// A fresh value: each call hands out a value greater than all earlier ones.
    pub fn next_val(&mut self) -> (r: IrVal)
        requires
            old(self).next_val < u32::MAX,
        ensures
            r.0 == old(self).next_val,
            final(self).next_val == old(self).next_val + 1,
            final(self).blocks@ == old(self).blocks@,
    {
        let v = IrVal(self.next_val);
        self.next_val = self.next_val + 1;
        v
    }
}

} // verus!
