//! Deep copies of values, chunks and instructions, and the view of a value
//! that they keep.

use vstd::prelude::*;
use crate::compiler::bytecode::{FunctionChunk, Instr};
use crate::compiler::meaning::{IV, iv, instrs_v, names_v};
use crate::vm::value::Value;

verus! {

/// A value as the machine sees it: lists, maps and functions by their contents.
pub enum VV {
    Null,
    Int(i64),
    Float(Seq<char>),
    Bool(bool),
    Str(Seq<char>),
    List(Seq<VV>),
    Dict(Seq<(Seq<char>, VV)>),
    Range { start: i64, end: i64 },
    Error(Seq<char>),
    Function(FV),
    Class { name: Seq<char>, fields: Seq<Seq<char>> },
}

/// A compiled function by its contents.
pub struct FV {
    pub name: Seq<char>,
    pub instrs: Seq<IV>,
    pub consts: Seq<VV>,
    pub names: Seq<Seq<char>>,
    pub nregs: u16,
    pub params: Seq<Seq<char>>,
    pub exports: Seq<Seq<char>>,
}

/// The view of a value.
pub open spec fn vv(v: Value) -> VV
    decreases v, 1nat,
{
    match v {
        Value::Null => VV::Null,
        Value::Int(n) => VV::Int(n),
        Value::Float(t) => VV::Float(t@),
        Value::Bool(b) => VV::Bool(b),
        Value::Str(s) => VV::Str(s@),
        Value::List(items) => VV::List(vvs(items@)),
        Value::Dict(entries) => VV::Dict(vdict(entries@)),
        Value::Range { start, end } => VV::Range { start, end },
        Value::Error(m) => VV::Error(m@),
        Value::Function(c) => VV::Function(fv(*c)),
        Value::Class { name, fields } => VV::Class { name: name@, fields: names_v(fields@) },
    }
}

/// The views of a list of values.
pub open spec fn vvs(vs: Seq<Value>) -> Seq<VV>
    decreases vs, 0nat,
{
    if vs.len() == 0 {
        seq![]
    } else {
        vvs(vs.drop_last()).push(vv(vs.last()))
    }
}

/// The view of the entries of a map.
pub open spec fn vdict(es: Seq<(String, Value)>) -> Seq<(Seq<char>, VV)>
    decreases es, 0nat,
{
    if es.len() == 0 {
        seq![]
    } else {
        vdict(es.drop_last()).push((es.last().0@, vv(es.last().1)))
    }
}

/// The view of a compiled function.
pub open spec fn fv(c: FunctionChunk) -> FV
    decreases c, 0nat,
{
    FV {
        name: c.name@,
        instrs: instrs_v(c.instrs@),
        consts: vvs(c.constants@),
        names: names_v(c.names@),
        nregs: c.num_registers,
        params: names_v(c.param_names@),
        exports: names_v(c.exports@),
    }
}

/// A value is well formed: the keys of every map in it are distinct.
pub open spec fn vv_wf(v: VV) -> bool
    decreases v,
{
    match v {
        VV::List(items) => forall|i: int| 0 <= i < items.len() ==> vv_wf(#[trigger] items[i]),
        VV::Dict(es) => {
            &&& forall|i: int, j: int| 0 <= i < j < es.len() ==> es[i].0 != es[j].0
            &&& forall|i: int| 0 <= i < es.len() ==> vv_wf(#[trigger] es[i].1)
        },
        VV::Function(f) => forall|i: int| 0 <= i < f.consts.len() ==> vv_wf(#[trigger] f.consts[i]),
        _ => true,
    }
}

impl Value {
    /// The keys of every map in the value are distinct.
    pub open spec fn wf(&self) -> bool {
        vv_wf(vv(*self))
    }
}

pub proof fn lemma_vvs_len(vs: Seq<Value>)
    ensures
        vvs(vs).len() == vs.len(),
    decreases vs.len(),
{
    if vs.len() > 0 {
        lemma_vvs_len(vs.drop_last());
    }
}

pub proof fn lemma_vvs_index(vs: Seq<Value>, i: int)
    requires
        0 <= i < vs.len(),
    ensures
        vvs(vs)[i] == vv(vs[i]),
    decreases vs.len(),
{
    lemma_vvs_len(vs.drop_last());
    if i < vs.len() - 1 {
        lemma_vvs_index(vs.drop_last(), i);
    }
}

/// A copy of a vector of plain items.
pub fn copy_vec<T: Copy>(v: &Vec<T>) -> (r: Vec<T>)
    ensures
        r@ == v@,
{
    let mut out: Vec<T> = Vec::new();
    let mut i: usize = 0;
    while i < v.len()
        invariant
            i <= v@.len(),
            out@ == v@.take(i as int),
        decreases v@.len() - i,
    {
        out.push(v[i]);
        proof {
            assert(v@.take(i + 1) =~= v@.take(i as int).push(v@[i as int]));
        }
        i = i + 1;
    }
    assert(v@.take(v@.len() as int) =~= v@);
    out
}

/// A copy of a list of strings.
pub fn copy_strings(v: &Vec<String>) -> (r: Vec<String>)
    ensures
        r@ == v@,
{
    let mut out: Vec<String> = Vec::new();
    let mut i: usize = 0;
    while i < v.len()
        invariant
            i <= v@.len(),
            out@ == v@.take(i as int),
        decreases v@.len() - i,
    {
        out.push(v[i].clone());
        proof {
            assert(v@.take(i + 1) =~= v@.take(i as int).push(v@[i as int]));
        }
        i = i + 1;
    }
    assert(v@.take(v@.len() as int) =~= v@);
    out
}

impl Instr {
    /// A copy of the instruction.
    pub fn dup(&self) -> (r: Instr)
        ensures
            iv(r) == iv(*self),
    {
        match self {
            Instr::LoadConst { dst, idx } => Instr::LoadConst { dst: *dst, idx: *idx },
            Instr::Move { dst, src } => Instr::Move { dst: *dst, src: *src },
            Instr::AddInt { dst, a, b } => Instr::AddInt { dst: *dst, a: *a, b: *b },
            Instr::SubInt { dst, a, b } => Instr::SubInt { dst: *dst, a: *a, b: *b },
            Instr::MulInt { dst, a, b } => Instr::MulInt { dst: *dst, a: *a, b: *b },
            Instr::DivInt { dst, a, b } => Instr::DivInt { dst: *dst, a: *a, b: *b },
            Instr::Mod { dst, a, b } => Instr::Mod { dst: *dst, a: *a, b: *b },
            Instr::Negate { dst, src } => Instr::Negate { dst: *dst, src: *src },
            Instr::AddFloat { dst, a, b } => Instr::AddFloat { dst: *dst, a: *a, b: *b },
            Instr::SubFloat { dst, a, b } => Instr::SubFloat { dst: *dst, a: *a, b: *b },
            Instr::MulFloat { dst, a, b } => Instr::MulFloat { dst: *dst, a: *a, b: *b },
            Instr::DivFloat { dst, a, b } => Instr::DivFloat { dst: *dst, a: *a, b: *b },
            Instr::CmpEq { dst, a, b } => Instr::CmpEq { dst: *dst, a: *a, b: *b },
            Instr::CmpNe { dst, a, b } => Instr::CmpNe { dst: *dst, a: *a, b: *b },
            Instr::CmpLt { dst, a, b } => Instr::CmpLt { dst: *dst, a: *a, b: *b },
            Instr::CmpGt { dst, a, b } => Instr::CmpGt { dst: *dst, a: *a, b: *b },
            Instr::CmpLe { dst, a, b } => Instr::CmpLe { dst: *dst, a: *a, b: *b },
            Instr::CmpGe { dst, a, b } => Instr::CmpGe { dst: *dst, a: *a, b: *b },
            Instr::And { dst, a, b } => Instr::And { dst: *dst, a: *a, b: *b },
            Instr::Or { dst, a, b } => Instr::Or { dst: *dst, a: *a, b: *b },
            Instr::Not { dst, src } => Instr::Not { dst: *dst, src: *src },
            Instr::Jump { target } => Instr::Jump { target: *target },
            Instr::JumpIfFalse { cond, target } => Instr::JumpIfFalse { cond: *cond, target: *target },
            Instr::JumpIfTrue { cond, target } => Instr::JumpIfTrue { cond: *cond, target: *target },
            Instr::Return { src } => Instr::Return { src: *src },
            Instr::Call { dst, callee, args } => Instr::Call { dst: *dst, callee: *callee, args: copy_vec(args) },
            Instr::Spawn { callee, args } => Instr::Spawn { callee: *callee, args: copy_vec(args) },
            Instr::LoadGlobal { dst, name } => Instr::LoadGlobal { dst: *dst, name: *name },
            Instr::StoreGlobal { name, src } => Instr::StoreGlobal { name: *name, src: *src },
            Instr::MakeList { dst, items } => Instr::MakeList { dst: *dst, items: copy_vec(items) },
            Instr::MakeMap { dst, pairs } => Instr::MakeMap { dst: *dst, pairs: copy_vec(pairs) },
            Instr::MakeRange { dst, start, end } => Instr::MakeRange { dst: *dst, start: *start, end: *end },
            Instr::MakeStruct { dst, class, fields } => Instr::MakeStruct { dst: *dst, class: *class, fields: copy_vec(fields) },
            Instr::Len { dst, src } => Instr::Len { dst: *dst, src: *src },
            Instr::Concat { dst, parts } => Instr::Concat { dst: *dst, parts: copy_vec(parts) },
            Instr::Stringify { dst, src } => Instr::Stringify { dst: *dst, src: *src },
            Instr::MakeError { dst, msg } => Instr::MakeError { dst: *dst, msg: *msg },
            Instr::Propagate { src } => Instr::Propagate { src: *src },
            Instr::IsError { dst, src } => Instr::IsError { dst: *dst, src: *src },
            Instr::LoadField { dst, obj, field } => Instr::LoadField { dst: *dst, obj: *obj, field: *field },
            Instr::StoreField { obj, field, src } => Instr::StoreField { obj: *obj, field: *field, src: *src },
            Instr::LoadIndex { dst, obj, idx } => Instr::LoadIndex { dst: *dst, obj: *obj, idx: *idx },
            Instr::StoreIndex { obj, idx, src } => Instr::StoreIndex { obj: *obj, idx: *idx, src: *src },
            Instr::ForIter { dst, src, step } => Instr::ForIter { dst: *dst, src: *src, step: *step },
            Instr::IterNext { var, iter, done } => Instr::IterNext { var: *var, iter: *iter, done: *done },
        }
    }
}

/// A copy of a list of instructions.
pub fn copy_instrs(v: &Vec<Instr>) -> (r: Vec<Instr>)
    ensures
        instrs_v(r@) == instrs_v(v@),
{
    let mut out: Vec<Instr> = Vec::new();
    let mut i: usize = 0;
    while i < v.len()
        invariant
            i <= v@.len(),
            instrs_v(out@) == instrs_v(v@.take(i as int)),
        decreases v@.len() - i,
    {
        let x = v[i].dup();
        let ghost prev = out@;
        out.push(x);
        proof {
            assert(v@.take(i + 1) =~= v@.take(i as int).push(v@[i as int]));
            assert(out@ =~= prev.push(x));
            assert(instrs_v(out@) =~= instrs_v(prev).push(iv(x)));
            assert(instrs_v(v@.take(i + 1)) =~= instrs_v(v@.take(i as int)).push(iv(v@[i as int])));
        }
        i = i + 1;
    }
    assert(v@.take(v@.len() as int) =~= v@);
    out
}

impl Value {
    /// A deep copy of the value.
    pub fn dup(&self) -> (r: Value)
        ensures
            vv(r) == vv(*self),
            r.wf() == self.wf(),
        decreases self,
    {
        match self {
            Value::Null => Value::Null,
            Value::Int(n) => Value::Int(*n),
            Value::Float(t) => Value::Float(t.clone()),
            Value::Bool(b) => Value::Bool(*b),
            Value::Str(s) => Value::Str(s.clone()),
            Value::List(items) => {
                let mut out: Vec<Value> = Vec::new();
                let mut i: usize = 0;
                while i < items.len()
                    invariant
                        i <= items@.len(),
                        vvs(out@) == vvs(items@.take(i as int)),
                        decreases_to!(self => items),
                    decreases items@.len() - i,
                {
                    proof {
                        assert(decreases_to!(items => items@[i as int]));
                    }
                    let x = items[i].dup();
                    let ghost prev = out@;
                    out.push(x);
                    proof {
                        assert(out@.drop_last() =~= prev);
                        assert(items@.take(i + 1).drop_last() =~= items@.take(i as int));
                    }
                    i = i + 1;
                }
                assert(items@.take(items@.len() as int) =~= items@);
                Value::List(out)
            },
            Value::Dict(entries) => {
                let mut out: Vec<(String, Value)> = Vec::new();
                let mut i: usize = 0;
                while i < entries.len()
                    invariant
                        i <= entries@.len(),
                        vdict(out@) == vdict(entries@.take(i as int)),
                        decreases_to!(self => entries),
                    decreases entries@.len() - i,
                {
                    proof {
                        assert(decreases_to!(entries => entries@[i as int]));
                        assert(decreases_to!(entries@[i as int] => entries@[i as int].1));
                    }
                    let x = entries[i].1.dup();
                    let k = entries[i].0.clone();
                    let ghost prev = out@;
                    out.push((k, x));
                    proof {
                        assert(out@.drop_last() =~= prev);
                        assert(entries@.take(i + 1).drop_last() =~= entries@.take(i as int));
                    }
                    i = i + 1;
                }
                assert(entries@.take(entries@.len() as int) =~= entries@);
                Value::Dict(out)
            },
            Value::Range { start, end } => Value::Range { start: *start, end: *end },
            Value::Error(m) => Value::Error(m.clone()),
            Value::Function(c) => Value::Function(Box::new(c.dup())),
            Value::Class { name, fields } => Value::Class { name: name.clone(), fields: copy_strings(fields) },
        }
    }
}

impl FunctionChunk {
    /// A deep copy of the chunk.
    pub fn dup(&self) -> (r: FunctionChunk)
        ensures
            fv(r) == fv(*self),
        decreases self,
    {
        let mut consts: Vec<Value> = Vec::new();
        let mut i: usize = 0;
        while i < self.constants.len()
            invariant
                i <= self.constants@.len(),
                vvs(consts@) == vvs(self.constants@.take(i as int)),
                decreases_to!(self => self.constants),
            decreases self.constants@.len() - i,
        {
            proof {
                assert(decreases_to!(self.constants => self.constants@[i as int]));
            }
            let x = self.constants[i].dup();
            let ghost prev = consts@;
            consts.push(x);
            proof {
                assert(consts@.drop_last() =~= prev);
                assert(self.constants@.take(i + 1).drop_last() =~= self.constants@.take(i as int));
            }
            i = i + 1;
        }
        assert(self.constants@.take(self.constants@.len() as int) =~= self.constants@);
        FunctionChunk {
            name: self.name.clone(),
            instrs: copy_instrs(&self.instrs),
            constants: consts,
            names: copy_strings(&self.names),
            num_registers: self.num_registers,
            param_names: copy_strings(&self.param_names),
            exports: copy_strings(&self.exports),
        }
    }
}

} // verus!
