//! Bytecode of the register machine.
//!
//! A compiled function is a `FunctionChunk`: its instructions, a constant
//! pool, a table of interned names, and how many registers it uses.

use vstd::prelude::*;
use crate::vm::value::Value;

verus! {

// ── Index and address types ────────────────────────────────────────────────

/// A register of the current call frame.
#[derive(Debug, Clone, Copy, PartialEq, Eq, Hash, Structural)]
pub struct Reg(pub u8);

/// An index into the constant pool of a chunk.
#[derive(Debug, Clone, Copy, PartialEq, Eq, Structural)]
pub struct ConstIdx(pub u16);

/// An index into the name table of a chunk.
#[derive(Debug, Clone, Copy, PartialEq, Eq, Structural)]
pub struct NameIdx(pub u16);

/// An instruction position, the target of a jump.
#[derive(Debug, Clone, Copy, PartialEq, Eq, Structural)]
pub struct Addr(pub u32);

/// One argument of a call: the register holding it, and its name when passed by name.
#[derive(Debug, Clone, Copy, PartialEq, Eq, Structural)]
pub struct CallArgDesc {
    pub name: Option<NameIdx>,
    pub reg: Reg,
}

// ── Instruction set ────────────────────────────────────────────────────────

#[derive(Debug)]
pub enum Instr {
    LoadConst { dst: Reg, idx: ConstIdx },
    Move { dst: Reg, src: Reg },
    AddInt { dst: Reg, a: Reg, b: Reg },
    SubInt { dst: Reg, a: Reg, b: Reg },
    MulInt { dst: Reg, a: Reg, b: Reg },
    DivInt { dst: Reg, a: Reg, b: Reg },
    Mod { dst: Reg, a: Reg, b: Reg },
    Negate { dst: Reg, src: Reg },
    AddFloat { dst: Reg, a: Reg, b: Reg },
    SubFloat { dst: Reg, a: Reg, b: Reg },
    MulFloat { dst: Reg, a: Reg, b: Reg },
    DivFloat { dst: Reg, a: Reg, b: Reg },
    CmpEq { dst: Reg, a: Reg, b: Reg },
    CmpNe { dst: Reg, a: Reg, b: Reg },
    CmpLt { dst: Reg, a: Reg, b: Reg },
    CmpGt { dst: Reg, a: Reg, b: Reg },
    CmpLe { dst: Reg, a: Reg, b: Reg },
    CmpGe { dst: Reg, a: Reg, b: Reg },
    And { dst: Reg, a: Reg, b: Reg },
    Or { dst: Reg, a: Reg, b: Reg },
    Not { dst: Reg, src: Reg },
    Jump { target: Addr },
    JumpIfFalse { cond: Reg, target: Addr },
    JumpIfTrue { cond: Reg, target: Addr },
    Return { src: Option<Reg> },
    Call { dst: Option<Reg>, callee: Reg, args: Vec<CallArgDesc> },
    Spawn { callee: Reg, args: Vec<CallArgDesc> },
    LoadGlobal { dst: Reg, name: NameIdx },
    StoreGlobal { name: NameIdx, src: Reg },
    MakeList { dst: Reg, items: Vec<Reg> },
    MakeMap { dst: Reg, pairs: Vec<(Reg, Reg)> },
    MakeRange { dst: Reg, start: Reg, end: Reg },
    MakeStruct { dst: Reg, class: NameIdx, fields: Vec<(NameIdx, Reg)> },
    Len { dst: Reg, src: Reg },
    Concat { dst: Reg, parts: Vec<Reg> },
    Stringify { dst: Reg, src: Reg },
    MakeError { dst: Reg, msg: Reg },
    Propagate { src: Reg },
    IsError { dst: Reg, src: Reg },
    LoadField { dst: Reg, obj: Reg, field: NameIdx },
    StoreField { obj: Reg, field: NameIdx, src: Reg },
    LoadIndex { dst: Reg, obj: Reg, idx: Reg },
    StoreIndex { obj: Reg, idx: Reg, src: Reg },
    /// Turns a list, range or string into an iterator.
    ForIter { dst: Reg, src: Reg, step: Option<Reg> },
    /// Puts the next element of `iter` in `var`, or jumps to `done` when there is none.
    IterNext { var: Reg, iter: Reg, done: Addr },
}

// ── Function chunks ────────────────────────────────────────────────────────

/// A compiled function: its instructions, constants, interned names, register
/// count, parameter names, and the names it exports as a module.
pub struct FunctionChunk {
    pub name: String,
    pub instrs: Vec<Instr>,
    pub constants: Vec<Value>,
    pub names: Vec<String>,
    pub num_registers: u16,
    pub param_names: Vec<String>,
    pub exports: Vec<String>,
}

/// The first position at or after `i` where `names` holds `n`, or `-1`.
pub open spec fn find_name(names: Seq<String>, n: Seq<char>, i: int) -> int
    decreases names.len() - i,
{
    if i < 0 || i >= names.len() {
        -1
    } else if names[i]@ == n {
        i
    } else {
        find_name(names, n, i + 1)
    }
}

proof fn lemma_find_name_absent(names: Seq<String>, n: Seq<char>, i: int)
    requires
        0 <= i <= names.len(),
        forall|j: int| i <= j < names.len() ==> names[j]@ != n,
    ensures
        find_name(names, n, i) == -1,
    decreases names.len() - i,
{
    if i < names.len() {
        lemma_find_name_absent(names, n, i + 1);
    }
}

pub proof fn lemma_find_name_bound(names: Seq<String>, n: Seq<char>, i: int)
    ensures
        -1 <= find_name(names, n, i) < names.len(),
        find_name(names, n, i) >= 0 ==> names[find_name(names, n, i)]@ == n,
    decreases names.len() - i,
{
    if 0 <= i < names.len() && names[i]@ != n {
        lemma_find_name_bound(names, n, i + 1);
    }
}

/// Casting to `u16` keeps the value modulo 2^16.
pub proof fn lemma_u16_cast(n: usize)
    ensures
        (n as u16) as int == n % 65536,
{
    assert(n as u16 == (n % 65536) as u16) by (bit_vector);
}

/// The names are pairwise different.
pub open spec fn names_distinct(names: Seq<String>) -> bool {
    forall|i: int, j: int| 0 <= i < j < names.len() ==> names[i]@ != names[j]@
}

impl FunctionChunk {
    /// An empty chunk named `name`.
    pub fn new(name: String) -> (r: FunctionChunk)
        ensures
            r.name == name,
            r.instrs@.len() == 0,
            r.constants@.len() == 0,
            r.names@.len() == 0,
            r.num_registers == 0,
            r.param_names@.len() == 0,
            r.exports@.len() == 0,
    {
        FunctionChunk {
            name,
            instrs: Vec::new(),
            constants: Vec::new(),
            names: Vec::new(),
            num_registers: 0,
            param_names: Vec::new(),
            exports: Vec::new(),
        }
    }

    /// Appends a constant; its index is returned, taken modulo 2^16.
    pub fn add_const(&mut self, val: Value) -> (r: ConstIdx)
        ensures
            final(self).constants@ == old(self).constants@.push(val),
            r.0 == old(self).constants@.len() % 65536,
            final(self).instrs@ == old(self).instrs@,
            final(self).names@ == old(self).names@,
            final(self).num_registers == old(self).num_registers,
            final(self).name == old(self).name,
            final(self).param_names@ == old(self).param_names@,
            final(self).exports@ == old(self).exports@,
    {
        let n = self.constants.len();
        self.constants.push(val);
        proof {
            lemma_u16_cast(n);
        }
        ConstIdx(#[verifier::truncate] (n as u16))
    }

    /// The index of `name` in the name table, appending it if it is not there
    /// yet; the index is taken modulo 2^16.
    pub fn add_name(&mut self, name: String) -> (r: NameIdx)
        ensures
            find_name(old(self).names@, name@, 0) >= 0 ==> {
                &&& final(self).names@ == old(self).names@
                &&& r.0 == find_name(old(self).names@, name@, 0) % 65536
            },
            find_name(old(self).names@, name@, 0) < 0 ==> {
                &&& final(self).names@ == old(self).names@.push(name)
                &&& r.0 == old(self).names@.len() % 65536
            },
            names_distinct(old(self).names@) ==> names_distinct(final(self).names@),
            final(self).names@[r.0 as int]@ == name@ || old(self).names@.len() >= 65536,
            final(self).instrs@ == old(self).instrs@,
            final(self).constants@ == old(self).constants@,
            final(self).num_registers == old(self).num_registers,
            final(self).name == old(self).name,
            final(self).param_names@ == old(self).param_names@,
            final(self).exports@ == old(self).exports@,
    {
        let mut i: usize = 0;
        while i < self.names.len()
            invariant
                i <= self.names@.len(),
                self.names@ == old(self).names@,
                self.instrs@ == old(self).instrs@,
                self.constants@ == old(self).constants@,
                self.num_registers == old(self).num_registers,
                self.name == old(self).name,
                self.param_names@ == old(self).param_names@,
                self.exports@ == old(self).exports@,
                find_name(self.names@, name@, 0) == find_name(self.names@, name@, i as int),
                forall|j: int| 0 <= j < i ==> self.names@[j]@ != name@,
            decreases self.names@.len() - i,
        {
            if self.names[i] == name {
                proof {
                    lemma_u16_cast(i);
                }
                return NameIdx(#[verifier::truncate] (i as u16));
            }
            i = i + 1;
        }
        proof {
            lemma_find_name_absent(self.names@, name@, 0);
        }
        let n = self.names.len();
        self.names.push(name);
        proof {
            lemma_u16_cast(n);
        }
        NameIdx(#[verifier::truncate] (n as u16))
    }

    /// Appends an instruction and returns its position.
    pub fn emit(&mut self, instr: Instr) -> (r: usize)
        ensures
            final(self).instrs@ == old(self).instrs@.push(instr),
            r == old(self).instrs@.len(),
            final(self).constants@ == old(self).constants@,
            final(self).names@ == old(self).names@,
            final(self).num_registers == old(self).num_registers,
            final(self).name == old(self).name,
            final(self).param_names@ == old(self).param_names@,
            final(self).exports@ == old(self).exports@,
    {
        let n = self.instrs.len();
        self.instrs.push(instr);
        n
    }
}

// ── Well-formed code ───────────────────────────────────────────────────────

pub open spec fn reg_ok(r: Reg, nregs: int) -> bool {
    (r.0 as int) < nregs
}

pub open spec fn opt_reg_ok(r: Option<Reg>, nregs: int) -> bool {
    match r {
        Some(r) => reg_ok(r, nregs),
        None => true,
    }
}

pub open spec fn name_ok(n: NameIdx, nnames: int) -> bool {
    (n.0 as int) < nnames
}

pub open spec fn args_ok(args: Seq<CallArgDesc>, nregs: int, nnames: int) -> bool {
    forall|i: int|
        0 <= i < args.len() ==> reg_ok(#[trigger] args[i].reg, nregs) && match args[i].name {
            Some(n) => name_ok(n, nnames),
            None => true,
        }
}

pub open spec fn regs_ok(rs: Seq<Reg>, nregs: int) -> bool {
    forall|i: int| 0 <= i < rs.len() ==> reg_ok(#[trigger] rs[i], nregs)
}

/// The register an instruction writes, if any.
pub open spec fn written_reg(ins: Instr) -> Option<Reg> {
    match ins {
        Instr::LoadConst { dst, .. } => Some(dst),
        Instr::Move { dst, .. } => Some(dst),
        Instr::AddInt { dst, .. } => Some(dst),
        Instr::SubInt { dst, .. } => Some(dst),
        Instr::MulInt { dst, .. } => Some(dst),
        Instr::DivInt { dst, .. } => Some(dst),
        Instr::Mod { dst, .. } => Some(dst),
        Instr::Negate { dst, .. } => Some(dst),
        Instr::AddFloat { dst, .. } => Some(dst),
        Instr::SubFloat { dst, .. } => Some(dst),
        Instr::MulFloat { dst, .. } => Some(dst),
        Instr::DivFloat { dst, .. } => Some(dst),
        Instr::CmpEq { dst, .. } => Some(dst),
        Instr::CmpNe { dst, .. } => Some(dst),
        Instr::CmpLt { dst, .. } => Some(dst),
        Instr::CmpGt { dst, .. } => Some(dst),
        Instr::CmpLe { dst, .. } => Some(dst),
        Instr::CmpGe { dst, .. } => Some(dst),
        Instr::And { dst, .. } => Some(dst),
        Instr::Or { dst, .. } => Some(dst),
        Instr::Not { dst, .. } => Some(dst),
        Instr::Call { dst, .. } => dst,
        Instr::LoadGlobal { dst, .. } => Some(dst),
        Instr::MakeList { dst, .. } => Some(dst),
        Instr::MakeMap { dst, .. } => Some(dst),
        Instr::MakeRange { dst, .. } => Some(dst),
        Instr::MakeStruct { dst, .. } => Some(dst),
        Instr::Len { dst, .. } => Some(dst),
        Instr::Concat { dst, .. } => Some(dst),
        Instr::Stringify { dst, .. } => Some(dst),
        Instr::MakeError { dst, .. } => Some(dst),
        Instr::IsError { dst, .. } => Some(dst),
        Instr::LoadField { dst, .. } => Some(dst),
        Instr::LoadIndex { dst, .. } => Some(dst),
        Instr::ForIter { dst, .. } => Some(dst),
        Instr::IterNext { var, .. } => Some(var),
        _ => None,
    }
}

/// `ins` writes no register, or one in `lo..hi`.
pub open spec fn writes_within(ins: Instr, lo: int, hi: int) -> bool {
    match written_reg(ins) {
        Some(r) => lo <= r.0 < hi,
        None => true,
    }
}

/// Every register, constant index, name index and jump target of `ins` is in
/// range: registers below `nregs`, indices below the pool sizes, targets at
/// most `len` (a jump to `len` leaves the chunk).
pub open spec fn instr_ok(ins: Instr, nconsts: int, nnames: int, nregs: int, len: int) -> bool {
    match ins {
        Instr::LoadConst { dst, idx } => reg_ok(dst, nregs) && (idx.0 as int) < nconsts,
        Instr::Move { dst, src } => reg_ok(dst, nregs) && reg_ok(src, nregs),
        Instr::AddInt { dst, a, b } => reg_ok(dst, nregs) && reg_ok(a, nregs) && reg_ok(b, nregs),
        Instr::SubInt { dst, a, b } => reg_ok(dst, nregs) && reg_ok(a, nregs) && reg_ok(b, nregs),
        Instr::MulInt { dst, a, b } => reg_ok(dst, nregs) && reg_ok(a, nregs) && reg_ok(b, nregs),
        Instr::DivInt { dst, a, b } => reg_ok(dst, nregs) && reg_ok(a, nregs) && reg_ok(b, nregs),
        Instr::Mod { dst, a, b } => reg_ok(dst, nregs) && reg_ok(a, nregs) && reg_ok(b, nregs),
        Instr::Negate { dst, src } => reg_ok(dst, nregs) && reg_ok(src, nregs),
        Instr::AddFloat { dst, a, b } => reg_ok(dst, nregs) && reg_ok(a, nregs) && reg_ok(b, nregs),
        Instr::SubFloat { dst, a, b } => reg_ok(dst, nregs) && reg_ok(a, nregs) && reg_ok(b, nregs),
        Instr::MulFloat { dst, a, b } => reg_ok(dst, nregs) && reg_ok(a, nregs) && reg_ok(b, nregs),
        Instr::DivFloat { dst, a, b } => reg_ok(dst, nregs) && reg_ok(a, nregs) && reg_ok(b, nregs),
        Instr::CmpEq { dst, a, b } => reg_ok(dst, nregs) && reg_ok(a, nregs) && reg_ok(b, nregs),
        Instr::CmpNe { dst, a, b } => reg_ok(dst, nregs) && reg_ok(a, nregs) && reg_ok(b, nregs),
        Instr::CmpLt { dst, a, b } => reg_ok(dst, nregs) && reg_ok(a, nregs) && reg_ok(b, nregs),
        Instr::CmpGt { dst, a, b } => reg_ok(dst, nregs) && reg_ok(a, nregs) && reg_ok(b, nregs),
        Instr::CmpLe { dst, a, b } => reg_ok(dst, nregs) && reg_ok(a, nregs) && reg_ok(b, nregs),
        Instr::CmpGe { dst, a, b } => reg_ok(dst, nregs) && reg_ok(a, nregs) && reg_ok(b, nregs),
        Instr::And { dst, a, b } => reg_ok(dst, nregs) && reg_ok(a, nregs) && reg_ok(b, nregs),
        Instr::Or { dst, a, b } => reg_ok(dst, nregs) && reg_ok(a, nregs) && reg_ok(b, nregs),
        Instr::Not { dst, src } => reg_ok(dst, nregs) && reg_ok(src, nregs),
        Instr::Jump { target } => (target.0 as int) <= len,
        Instr::JumpIfFalse { cond, target } => reg_ok(cond, nregs) && (target.0 as int) <= len,
        Instr::JumpIfTrue { cond, target } => reg_ok(cond, nregs) && (target.0 as int) <= len,
        Instr::Return { src } => opt_reg_ok(src, nregs),
        Instr::Call { dst, callee, args } => opt_reg_ok(dst, nregs) && reg_ok(callee, nregs)
            && args_ok(args@, nregs, nnames),
        Instr::Spawn { callee, args } => reg_ok(callee, nregs) && args_ok(args@, nregs, nnames),
        Instr::LoadGlobal { dst, name } => reg_ok(dst, nregs) && name_ok(name, nnames),
        Instr::StoreGlobal { name, src } => name_ok(name, nnames) && reg_ok(src, nregs),
        Instr::MakeList { dst, items } => reg_ok(dst, nregs) && regs_ok(items@, nregs),
        Instr::MakeMap { dst, pairs } => reg_ok(dst, nregs) && forall|i: int|
            0 <= i < pairs@.len() ==> reg_ok(#[trigger] pairs@[i].0, nregs) && reg_ok(
                pairs@[i].1,
                nregs,
            ),
        Instr::MakeRange { dst, start, end } => reg_ok(dst, nregs) && reg_ok(start, nregs)
            && reg_ok(end, nregs),
        Instr::MakeStruct { dst, class, fields } => reg_ok(dst, nregs) && name_ok(class, nnames)
            && forall|i: int|
            0 <= i < fields@.len() ==> name_ok(#[trigger] fields@[i].0, nnames) && reg_ok(
                fields@[i].1,
                nregs,
            ),
        Instr::Len { dst, src } => reg_ok(dst, nregs) && reg_ok(src, nregs),
        Instr::Concat { dst, parts } => reg_ok(dst, nregs) && regs_ok(parts@, nregs),
        Instr::Stringify { dst, src } => reg_ok(dst, nregs) && reg_ok(src, nregs),
        Instr::MakeError { dst, msg } => reg_ok(dst, nregs) && reg_ok(msg, nregs),
        Instr::Propagate { src } => reg_ok(src, nregs),
        Instr::IsError { dst, src } => reg_ok(dst, nregs) && reg_ok(src, nregs),
        Instr::LoadField { dst, obj, field } => reg_ok(dst, nregs) && reg_ok(obj, nregs) && name_ok(
            field,
            nnames,
        ),
        Instr::StoreField { obj, field, src } => reg_ok(obj, nregs) && name_ok(field, nnames)
            && reg_ok(src, nregs),
        Instr::LoadIndex { dst, obj, idx } => reg_ok(dst, nregs) && reg_ok(obj, nregs) && reg_ok(
            idx,
            nregs,
        ),
        Instr::StoreIndex { obj, idx, src } => reg_ok(obj, nregs) && reg_ok(idx, nregs) && reg_ok(
            src,
            nregs,
        ),
        Instr::ForIter { dst, src, step } => reg_ok(dst, nregs) && reg_ok(src, nregs) && opt_reg_ok(
            step,
            nregs,
        ),
        Instr::IterNext { var, iter, done } => reg_ok(var, nregs) && reg_ok(iter, nregs) && (
        done.0 as int) <= len,
    }
}

/// Growing the pools, the register count or the code keeps an instruction in range.
pub proof fn lemma_instr_ok_grow(
    ins: Instr,
    nc: int,
    nn: int,
    nr: int,
    len: int,
    nc2: int,
    nn2: int,
    nr2: int,
    len2: int,
)
    requires
        instr_ok(ins, nc, nn, nr, len),
        nc <= nc2,
        nn <= nn2,
        nr <= nr2,
        len <= len2,
    ensures
        instr_ok(ins, nc2, nn2, nr2, len2),
{
}

/// Every instruction of the chunk is in range.
pub open spec fn code_ok(c: FunctionChunk) -> bool {
    forall|i: int|
        0 <= i < c.instrs@.len() ==> instr_ok(
            #[trigger] c.instrs@[i],
            c.constants@.len() as int,
            c.names@.len() as int,
            c.num_registers as int,
            c.instrs@.len() as int,
        )
}

/// A chunk the machine can run: every instruction in range, interned names
/// distinct, and the last instruction a `Return`.
pub open spec fn chunk_wf(c: FunctionChunk) -> bool {
    &&& code_ok(c)
    &&& names_distinct(c.names@)
    &&& c.instrs@.len() > 0
    &&& c.instrs@.last() is Return
}

} // verus!
