//! Compilation of the syntax tree to register bytecode.
//!
//! Every function of the compiler keeps the chunk well formed: each register
//! it names is below the register count, each constant or name index refers
//! to an entry of its pool, each jump lands inside the code or at its end.

use vstd::prelude::*;
use crate::compiler::bytecode::{
    Addr, CallArgDesc, FunctionChunk, Instr, Reg, NameIdx, ConstIdx, instr_ok, code_ok, chunk_wf,
    names_distinct, find_name, reg_ok, regs_ok, args_ok, opt_reg_ok, written_reg, writes_within,
};
use crate::parser::ast::{Expr, ExprKind, Stmt, StmtKind, FnDef, ClsDef, CallArg, InterpPart, Param, BinOp, UnaryOp};
use crate::vm::value::Value;
use crate::compiler::meaning::{
    param_names_v, addr_of, patched, patched_v, patched_if, in_patches, CState, LoopV, IV, CV, iv,
    cv, cvs, instrs_v, names_v, chunk_v, chunk_of, s_fresh, s_emit, s_const, s_name, s_patch,
    s_patch_all, s_load_const, s_load_name, s_store_name, s_push_patch, s_open, s_close, s_new_fn,
    s_new_module, s_bind, s_bind_regs, s_finish, s_fn_const, fn_state, lemma_cvs_len, find_in, cf,
    cf_list, cf_map, cf_interp, cfl, cfp, cfa, cfs, fb, fs, fe, fl, fprogram, top_level_ok,
    exported_names, law_block_exports, binop_instr, export_name, restore, binding,
};

verus! {

// ── Local variables ────────────────────────────────────────────────────────

/// The registers of the local variables of a function.
struct Locals {
    entries: Vec<(String, Reg)>,
}

spec fn locals_map(es: Seq<(String, Reg)>) -> Map<Seq<char>, Reg>
    decreases es.len(),
{
    if es.len() == 0 {
        Map::empty()
    } else {
        locals_map(es.drop_last()).insert(es.last().0@, es.last().1)
    }
}

/// The entries of `es` whose name is not `k`.
spec fn without(es: Seq<(String, Reg)>, k: Seq<char>) -> Seq<(String, Reg)>
    decreases es.len(),
{
    if es.len() == 0 {
        es
    } else if es.last().0@ == k {
        without(es.drop_last(), k)
    } else {
        without(es.drop_last(), k).push(es.last())
    }
}

proof fn lemma_without(es: Seq<(String, Reg)>, k: Seq<char>)
    ensures
        locals_map(without(es, k)) == locals_map(es).remove(k),
    decreases es.len(),
{
    if es.len() > 0 {
        lemma_without(es.drop_last(), k);
        if es.last().0@ != k {
            let w = without(es.drop_last(), k);
            assert(w.push(es.last()).drop_last() =~= w);
        }
        assert(locals_map(without(es, k)) =~= locals_map(es).remove(k));
    }
}

proof fn lemma_locals_found(es: Seq<(String, Reg)>, i: int, k: Seq<char>)
    requires
        0 <= i < es.len(),
        es[i].0@ == k,
        forall|j: int| i < j < es.len() ==> es[j].0@ != k,
    ensures
        locals_map(es).contains_key(k),
        locals_map(es)[k] == es[i].1,
    decreases es.len(),
{
    if i < es.len() - 1 {
        lemma_locals_found(es.drop_last(), i, k);
    }
}

proof fn lemma_locals_absent(es: Seq<(String, Reg)>, k: Seq<char>)
    requires
        forall|j: int| 0 <= j < es.len() ==> es[j].0@ != k,
    ensures
        !locals_map(es).contains_key(k),
    decreases es.len(),
{
    if es.len() > 0 {
        lemma_locals_absent(es.drop_last(), k);
    }
}

impl View for Locals {
    type V = Map<Seq<char>, Reg>;

    closed spec fn view(&self) -> Map<Seq<char>, Reg> {
        locals_map(self.entries@)
    }
}

impl Locals {
    fn new() -> (r: Locals)
        ensures
            r@ == Map::<Seq<char>, Reg>::empty(),
    {
        let r = Locals { entries: Vec::new() };
        assert(r@ =~= Map::<Seq<char>, Reg>::empty());
        r
    }

    fn get(&self, name: &str) -> (r: Option<Reg>)
        ensures
            match r {
                Some(reg) => self@.contains_key(name@) && self@[name@] == reg,
                None => !self@.contains_key(name@),
            },
    {
        let k = name.to_owned();
        let mut i = self.entries.len();
        while i > 0
            invariant
                i <= self.entries@.len(),
                k@ == name@,
                forall|j: int| i <= j < self.entries@.len() ==> self.entries@[j].0@ != k@,
            decreases i,
        {
            i = i - 1;
            if self.entries[i].0 == k {
                proof {
                    lemma_locals_found(self.entries@, i as int, k@);
                }
                return Some(self.entries[i].1);
            }
        }
        proof {
            lemma_locals_absent(self.entries@, k@);
        }
        None
    }

    fn insert(&mut self, name: String, reg: Reg)
        ensures
            final(self)@ == old(self)@.insert(name@, reg),
    {
        let ghost old_entries = self.entries@;
        self.entries.push((name, reg));
        assert(self.entries@.drop_last() =~= old_entries);
    }

    /// Removes the binding of `name`, returning it.
    fn remove(&mut self, name: &str) -> (r: Option<Reg>)
        ensures
            final(self)@ == old(self)@.remove(name@),
            match r {
                Some(reg) => old(self)@.contains_key(name@) && old(self)@[name@] == reg,
                None => !old(self)@.contains_key(name@),
            },
    {
        let found = self.get(name);
        let k = name.to_owned();
        let mut kept: Vec<(String, Reg)> = Vec::new();
        let mut i: usize = 0;
        while i < self.entries.len()
            invariant
                i <= self.entries@.len(),
                self.entries@ == old(self).entries@,
                k@ == name@,
                kept@ == without(self.entries@.take(i as int), k@),
            decreases self.entries@.len() - i,
        {
            let ghost es = self.entries@;
            assert(es.take(i + 1).drop_last() =~= es.take(i as int));
            assert(es.take(i + 1).last() == es[i as int]);
            if self.entries[i].0 != k {
                let n = self.entries[i].0.clone();
                kept.push((n, self.entries[i].1));
            }
            i = i + 1;
        }
        proof {
            assert(self.entries@.take(self.entries@.len() as int) =~= self.entries@);
            lemma_without(self.entries@, k@);
        }
        self.entries = kept;
        found
    }
}

// ── Compiler state ─────────────────────────────────────────────────────────

/// The jumps of an enclosing loop still to be patched.
struct LoopCtx {
    break_patches: Vec<usize>,
    continue_patches: Vec<usize>,
    check_pc: usize,
    is_for: bool,
}

pub struct Compiler {
    pub chunk: FunctionChunk,
    next_reg: u8,
    locals: Locals,
    is_module: bool,
    loops: Vec<LoopCtx>,
    overflow: bool,
}

spec fn patches_ok(ps: Seq<usize>, len: int) -> bool {
    forall|i: int| 0 <= i < ps.len() ==> (#[trigger] ps[i] as int) < len
}

spec fn loops_ok(loops: Seq<LoopCtx>, len: int) -> bool {
    forall|j: int|
        0 <= j < loops.len() ==> {
            &&& (#[trigger] loops[j]).check_pc <= len
            &&& patches_ok(loops[j].break_patches@, len)
            &&& patches_ok(loops[j].continue_patches@, len)
        }
}

/// What every step of the compiler keeps: the chunk's code in range, the
/// registers of locals allocated, pending jumps inside the code.
spec fn state_ok(c: &Compiler) -> bool {
    &&& code_ok(c.chunk)
    &&& names_distinct(c.chunk.names@)
    &&& c.next_reg as int <= c.chunk.num_registers as int <= 256
    &&& !c.overflow ==> c.chunk.num_registers == c.next_reg
    &&& forall|k: Seq<char>|
        c.locals@.contains_key(k) ==> (#[trigger] c.locals@[k]).0 < c.chunk.num_registers
    &&& loops_ok(c.loops@, c.chunk.instrs@.len() as int)
}

/// `b` follows `a`: code, pools and register count only grew, and the loop
/// nesting and kind of unit are the same.
spec fn grows(a: &Compiler, b: &Compiler) -> bool {
    &&& a.chunk.instrs@.len() <= b.chunk.instrs@.len()
    &&& a.chunk.constants@.len() <= b.chunk.constants@.len()
    &&& a.chunk.names@.len() <= b.chunk.names@.len()
    &&& a.chunk.num_registers <= b.chunk.num_registers
    &&& a.loops@.len() == b.loops@.len()
    &&& a.is_module == b.is_module
    &&& (a.overflow ==> b.overflow)
    &&& a.chunk.name == b.chunk.name
    &&& a.chunk.param_names@ == b.chunk.param_names@
}

/// From `a` to `b` only instructions were added, each writing no register or
/// one allocated in between; locals keep their registers. Once the register
/// file has overflowed, nothing is promised of the code.
spec fn fresh_since(a: &Compiler, b: &Compiler) -> bool {
    &&& b.locals@ == a.locals@
    &&& (!b.overflow ==> {
        &&& a.next_reg <= b.next_reg
        &&& a.chunk.instrs@.len() <= b.chunk.instrs@.len()
        &&& forall|i: int| 0 <= i < a.chunk.instrs@.len() ==> #[trigger] b.chunk.instrs@[i] == a.chunk.instrs@[i]
        &&& forall|i: int|
            a.chunk.instrs@.len() <= i < b.chunk.instrs@.len() ==> writes_within(
                #[trigger] b.chunk.instrs@[i],
                a.next_reg as int,
                b.next_reg as int,
            )
    })
}

/// `ns` are the names of the parameters `ps`, in order.
spec fn param_names_of(ns: Seq<String>, ps: Seq<Param>) -> bool {
    &&& ns.len() == ps.len()
    &&& forall|i: int| 0 <= i < ns.len() ==> #[trigger] ns[i]@ == ps[i].name@
}

/// `r` was allocated between `a` and `b`, or is the register of a local of `a`.
spec fn fresh_or_local(a: &Compiler, b: &Compiler, r: Reg) -> bool {
    b.overflow || (a.next_reg <= r.0 < b.next_reg) || exists|k: Seq<char>|
        a.locals@.contains_key(k) && #[trigger] a.locals@[k] == r
}

/// Growing the pools, the register count or the code keeps every instruction in range.
proof fn lemma_all_grow(instrs: Seq<Instr>, nc: int, nn: int, nr: int, len: int, nc2: int, nn2: int, nr2: int, len2: int)
    requires
        forall|i: int| 0 <= i < instrs.len() ==> instr_ok(#[trigger] instrs[i], nc, nn, nr, len),
        nc <= nc2,
        nn <= nn2,
        nr <= nr2,
        len <= len2,
    ensures
        forall|i: int| 0 <= i < instrs.len() ==> instr_ok(#[trigger] instrs[i], nc2, nn2, nr2, len2),
{
    assert forall|i: int| 0 <= i < instrs.len() implies instr_ok(#[trigger] instrs[i], nc2, nn2, nr2, len2) by {
        crate::compiler::bytecode::lemma_instr_ok_grow(instrs[i], nc, nn, nr, len, nc2, nn2, nr2, len2);
    }
}

proof fn lemma_args_ok_grow(args: Seq<CallArgDesc>, nr: int, nn: int, nr2: int, nn2: int)
    requires
        args_ok(args, nr, nn),
        nr <= nr2,
        nn <= nn2,
    ensures
        args_ok(args, nr2, nn2),
{
    assert forall|i: int| 0 <= i < args.len() implies reg_ok(#[trigger] args[i].reg, nr2) && match args[i].name {
        Some(n) => crate::compiler::bytecode::name_ok(n, nn2),
        None => true,
    } by {
        assert(reg_ok(args[i].reg, nr));
    }
}

proof fn lemma_find_in(names: Seq<String>, n: Seq<char>, i: int)
    ensures
        find_name(names, n, i) == find_in(names.map_values(|x: String| x@), n, i),
    decreases names.len() - i,
{
    if 0 <= i < names.len() {
        lemma_find_in(names, n, i + 1);
    }
}

/// The chunk a compiler holds is the chunk of its state.
proof fn lemma_chunk_of(c: Compiler)
    ensures
        chunk_v(c.chunk) == chunk_of(c.state()),
{
    reveal(chunk_v);
}

/// The view of a pending loop.
spec fn loop_v(l: LoopCtx) -> LoopV {
    LoopV { breaks: l.break_patches@, conts: l.continue_patches@, check: l.check_pc, is_for: l.is_for }
}

impl Compiler {
    /// The state of the compiler: its chunk and bookkeeping.
    pub closed spec fn state(&self) -> CState {
        CState {
            instrs: instrs_v(self.chunk.instrs@),
            consts: cvs(self.chunk.constants@),
            names: names_v(self.chunk.names@),
            nregs: self.chunk.num_registers,
            params: names_v(self.chunk.param_names@),
            exports: names_v(self.chunk.exports@),
            name: self.chunk.name@,
            next: self.next_reg,
            locals: self.locals@,
            module: self.is_module,
            loops: self.loops@.map_values(|l: LoopCtx| loop_v(l)),
            overflow: self.overflow,
        }
    }

    /// The compiler is in a consistent state.
    pub closed spec fn wf(&self) -> bool {
        state_ok(self)
    }

    /// The name of the unit being compiled.
    pub closed spec fn unit_name(&self) -> String {
        self.chunk.name
    }

    /// Some function needed more registers than a frame has.
    pub closed spec fn overflowed(&self) -> bool {
        self.overflow
    }

    /// A compiler for a module: its top-level names are globals.
    pub fn new(name: String) -> (r: Compiler)
        ensures
            r.wf(),
            !r.overflowed(),
            r.unit_name() == name,
            r.state() == s_new_module(name@),
    {
        let r = Compiler {
            chunk: FunctionChunk::new(name),
            next_reg: 0,
            locals: Locals::new(),
            is_module: true,
            loops: Vec::new(),
            overflow: false,
        };
        assert(r.state() =~= s_new_module(name@)) by {
            assert(r.chunk.names@.map_values(|n: String| n@) =~= Seq::<Seq<char>>::empty());
            assert(r.chunk.param_names@.map_values(|n: String| n@) =~= Seq::<Seq<char>>::empty());
            assert(r.chunk.exports@.map_values(|n: String| n@) =~= Seq::<Seq<char>>::empty());
            assert(r.loops@.map_values(|l: LoopCtx| loop_v(l)) =~= Seq::<LoopV>::empty());
        }
        r
    }

    /// A compiler for a function body: its names are locals.
    fn new_fn(name: String) -> (r: Compiler)
        ensures
            state_ok(&r),
            !r.is_module,
            r.loops@.len() == 0,
            r.chunk.instrs@.len() == 0,
            !r.overflow,
            r.locals@ == Map::<Seq<char>, Reg>::empty(),
            r.next_reg == 0,
            r.chunk.num_registers == 0,
            r.chunk.name == name,
            r.state() == s_new_fn(name@),
    {
        let r = Compiler {
            chunk: FunctionChunk::new(name),
            next_reg: 0,
            locals: Locals::new(),
            is_module: false,
            loops: Vec::new(),
            overflow: false,
        };
        assert(r.state() =~= s_new_fn(name@)) by {
            assert(r.chunk.names@.map_values(|n: String| n@) =~= Seq::<Seq<char>>::empty());
            assert(r.chunk.param_names@.map_values(|n: String| n@) =~= Seq::<Seq<char>>::empty());
            assert(r.chunk.exports@.map_values(|n: String| n@) =~= Seq::<Seq<char>>::empty());
            assert(r.loops@.map_values(|l: LoopCtx| loop_v(l)) =~= Seq::<LoopV>::empty());
        }
        r
    }

    /// A fresh register. A frame has 255 of them: asking for one more marks
    /// the compilation as overflowed.
    fn fresh_reg(&mut self) -> (r: Reg)
        requires
            state_ok(old(self)),
        ensures
            state_ok(final(self)),
            grows(old(self), final(self)),
            reg_ok(r, final(self).chunk.num_registers as int),
            final(self).chunk.instrs@ == old(self).chunk.instrs@,
            final(self).locals@ == old(self).locals@,
            final(self).loops@ == old(self).loops@,
            fresh_since(old(self), final(self)),
            !final(self).overflow ==> r.0 == old(self).next_reg && final(self).next_reg == old(self).next_reg + 1,
            final(self).chunk.constants@ == old(self).chunk.constants@,
            final(self).chunk.names@ == old(self).chunk.names@,
            (final(self).state(), r) == s_fresh(old(self).state()),
    {
        proof {
            lemma_all_grow(self.chunk.instrs@, self.chunk.constants@.len() as int, self.chunk.names@.len() as int, self.chunk.num_registers as int, self.chunk.instrs@.len() as int, self.chunk.constants@.len() as int, self.chunk.names@.len() as int, 256, self.chunk.instrs@.len() as int);
        }
        if self.next_reg == 255 {
            self.overflow = true;
            self.chunk.num_registers = 256;
            return Reg(255);
        }
        let r = Reg(self.next_reg);
        self.next_reg = self.next_reg + 1;
        if self.next_reg as u16 > self.chunk.num_registers {
            self.chunk.num_registers = self.next_reg as u16;
        }
        proof {
            lemma_all_grow(old(self).chunk.instrs@, self.chunk.constants@.len() as int, self.chunk.names@.len() as int, old(self).chunk.num_registers as int, self.chunk.instrs@.len() as int, self.chunk.constants@.len() as int, self.chunk.names@.len() as int, self.chunk.num_registers as int, self.chunk.instrs@.len() as int);
        }
        r
    }

    /// Appends an instruction that is in range for the grown chunk.
    fn emit(&mut self, instr: Instr) -> (r: usize)
        requires
            state_ok(old(self)),
            instr_ok(
                instr,
                old(self).chunk.constants@.len() as int,
                old(self).chunk.names@.len() as int,
                old(self).chunk.num_registers as int,
                (old(self).chunk.instrs@.len() + 1) as int,
            ),
        ensures
            state_ok(final(self)),
            grows(old(self), final(self)),
            r == old(self).chunk.instrs@.len(),
            final(self).chunk.instrs@ == old(self).chunk.instrs@.push(instr),
            final(self).chunk.constants@ == old(self).chunk.constants@,
            final(self).chunk.names@ == old(self).chunk.names@,
            final(self).chunk.num_registers == old(self).chunk.num_registers,
            final(self).locals@ == old(self).locals@,
            final(self).loops@ == old(self).loops@,
            final(self).next_reg == old(self).next_reg,
            final(self).overflow == old(self).overflow,
            final(self).state() == s_emit(old(self).state(), iv(instr)),
    {
        let ghost c = self.chunk.constants@.len() as int;
        let ghost n = self.chunk.names@.len() as int;
        let ghost nr = self.chunk.num_registers as int;
        let ghost len = self.chunk.instrs@.len() as int;
        proof {
            lemma_all_grow(self.chunk.instrs@, c, n, nr, len, c, n, nr, (len + 1) as int);
        }
        let r = self.chunk.emit(instr);
        assert(forall|i: int| 0 <= i < len ==> self.chunk.instrs@[i] == old(self).chunk.instrs@[i]);
        assert(self.chunk.instrs@[len] == instr);
        r
    }

    /// Interns a constant.
    fn add_const(&mut self, val: Value) -> (r: ConstIdx)
        requires
            state_ok(old(self)),
        ensures
            state_ok(final(self)),
            grows(old(self), final(self)),
            (r.0 as int) < final(self).chunk.constants@.len(),
            final(self).chunk.constants@ == old(self).chunk.constants@.push(val),
            r.0 == old(self).chunk.constants@.len() % 65536,
            final(self).chunk.instrs@ == old(self).chunk.instrs@,
            final(self).chunk.names@ == old(self).chunk.names@,
            final(self).chunk.num_registers == old(self).chunk.num_registers,
            final(self).locals@ == old(self).locals@,
            final(self).loops@ == old(self).loops@,
            final(self).next_reg == old(self).next_reg,
            final(self).overflow == old(self).overflow,
            (final(self).state(), r) == s_const(old(self).state(), cv(val)),
    {
        proof {
            lemma_all_grow(self.chunk.instrs@, self.chunk.constants@.len() as int, self.chunk.names@.len() as int, self.chunk.num_registers as int, self.chunk.instrs@.len() as int, (self.chunk.constants@.len() + 1) as int, self.chunk.names@.len() as int, self.chunk.num_registers as int, self.chunk.instrs@.len() as int);
        }
        let ghost v = val;
        let r = self.chunk.add_const(val);
        proof {
            assert(self.chunk.constants@.drop_last() =~= old(self).chunk.constants@);
            assert(cvs(self.chunk.constants@) == cvs(old(self).chunk.constants@).push(cv(v)));
            lemma_cvs_len(old(self).chunk.constants@);
            assert(self.state() =~= s_const(old(self).state(), cv(v)).0);
        }
        r
    }

    /// Interns a name.
    fn add_name(&mut self, name: String) -> (r: NameIdx)
        requires
            state_ok(old(self)),
        ensures
            state_ok(final(self)),
            grows(old(self), final(self)),
            (r.0 as int) < final(self).chunk.names@.len(),
            old(self).chunk.names@.len() < 65536 ==> final(self).chunk.names@[r.0 as int]@ == name@,
            final(self).chunk.instrs@ == old(self).chunk.instrs@,
            final(self).chunk.constants@ == old(self).chunk.constants@,
            final(self).chunk.num_registers == old(self).chunk.num_registers,
            final(self).locals@ == old(self).locals@,
            final(self).loops@ == old(self).loops@,
            final(self).next_reg == old(self).next_reg,
            final(self).overflow == old(self).overflow,
            (final(self).state(), r) == s_name(old(self).state(), name@),
    {
        proof {
            lemma_all_grow(self.chunk.instrs@, self.chunk.constants@.len() as int, self.chunk.names@.len() as int, self.chunk.num_registers as int, self.chunk.instrs@.len() as int, self.chunk.constants@.len() as int, (self.chunk.names@.len() + 1) as int, self.chunk.num_registers as int, self.chunk.instrs@.len() as int);
        }
        let ghost nm = name@;
        let r = self.chunk.add_name(name);
        proof {
            crate::compiler::bytecode::lemma_find_name_bound(old(self).chunk.names@, nm, 0);
            lemma_find_in(old(self).chunk.names@, nm, 0);
            if find_name(old(self).chunk.names@, nm, 0) < 0 {
                assert(self.chunk.names@.map_values(|n: String| n@) =~= old(self).chunk.names@.map_values(|n: String| n@).push(nm)) by {
                    assert(self.chunk.names@.last()@ == nm);
                }
            }
            assert(self.state() =~= s_name(old(self).state(), nm).0);
        }
        r
    }

    fn emit_jump(&mut self) -> (r: usize)
        requires
            state_ok(old(self)),
        ensures
            state_ok(final(self)),
            grows(old(self), final(self)),
            r == old(self).chunk.instrs@.len(),
            final(self).chunk.instrs@ == old(self).chunk.instrs@.push(Instr::Jump { target: Addr(0) }),
            final(self).next_reg == old(self).next_reg,
            final(self).overflow == old(self).overflow,
            final(self).chunk.instrs@.len() == r + 1,
            final(self).locals@ == old(self).locals@,
            final(self).loops@ == old(self).loops@,
            final(self).state() == s_emit(old(self).state(), IV::Plain(Instr::Jump { target: Addr(0) })),
    {
        self.emit(Instr::Jump { target: Addr(0) })
    }

    fn emit_jump_if_false(&mut self, cond: Reg) -> (r: usize)
        requires
            state_ok(old(self)),
            reg_ok(cond, old(self).chunk.num_registers as int),
        ensures
            state_ok(final(self)),
            grows(old(self), final(self)),
            r == old(self).chunk.instrs@.len(),
            final(self).chunk.instrs@ == old(self).chunk.instrs@.push(Instr::JumpIfFalse { cond, target: Addr(0) }),
            final(self).next_reg == old(self).next_reg,
            final(self).overflow == old(self).overflow,
            final(self).chunk.instrs@.len() == r + 1,
            final(self).locals@ == old(self).locals@,
            final(self).loops@ == old(self).loops@,
            final(self).state() == s_emit(old(self).state(), IV::Plain(Instr::JumpIfFalse { cond, target: Addr(0) })),
    {
        self.emit(Instr::JumpIfFalse { cond, target: Addr(0) })
    }

    fn emit_jump_if_true(&mut self, cond: Reg) -> (r: usize)
        requires
            state_ok(old(self)),
            reg_ok(cond, old(self).chunk.num_registers as int),
        ensures
            state_ok(final(self)),
            grows(old(self), final(self)),
            r == old(self).chunk.instrs@.len(),
            final(self).chunk.instrs@ == old(self).chunk.instrs@.push(Instr::JumpIfTrue { cond, target: Addr(0) }),
            final(self).next_reg == old(self).next_reg,
            final(self).overflow == old(self).overflow,
            final(self).chunk.instrs@.len() == r + 1,
            final(self).locals@ == old(self).locals@,
            final(self).loops@ == old(self).loops@,
            final(self).state() == s_emit(old(self).state(), IV::Plain(Instr::JumpIfTrue { cond, target: Addr(0) })),
    {
        self.emit(Instr::JumpIfTrue { cond, target: Addr(0) })
    }

    /// Points the jump at `idx` (or the exit of the iteration at `idx`) to `target`.
    fn patch_to(&mut self, idx: usize, target: usize, with_iter: bool)
        requires
            state_ok(old(self)),
            idx < old(self).chunk.instrs@.len(),
            target <= old(self).chunk.instrs@.len(),
        ensures
            state_ok(final(self)),
            grows(old(self), final(self)),
            final(self).chunk.instrs@.len() == old(self).chunk.instrs@.len(),
            final(self).locals@ == old(self).locals@,
            final(self).loops@ == old(self).loops@,
            final(self).next_reg == old(self).next_reg,
            final(self).overflow == old(self).overflow,
            forall|i: int| 0 <= i < final(self).chunk.instrs@.len() && i != idx ==> #[trigger] final(self).chunk.instrs@[i] == old(self).chunk.instrs@[i],
            written_reg(final(self).chunk.instrs@[idx as int]) == written_reg(old(self).chunk.instrs@[idx as int]),
            final(self).chunk.instrs@[idx as int] == patched(old(self).chunk.instrs@[idx as int], addr_of(target), with_iter),
            final(self).state() == s_patch(old(self).state(), idx as int, target, with_iter),
    {
        let t32: u32 = #[verifier::truncate] (target as u32);
        assert(t32 == addr_of(target).0);
        assert(t32 <= target) by (bit_vector)
            requires
                t32 == #[verifier::truncate] (target as u32),
        ;
        let t = Addr(t32);
        let new_instr = match &self.chunk.instrs[idx] {
            Instr::Jump { .. } => Some(Instr::Jump { target: t }),
            Instr::JumpIfFalse { cond, .. } => Some(Instr::JumpIfFalse { cond: *cond, target: t }),
            Instr::JumpIfTrue { cond, .. } => Some(Instr::JumpIfTrue { cond: *cond, target: t }),
            Instr::IterNext { var, iter, .. } => if with_iter {
                Some(Instr::IterNext { var: *var, iter: *iter, done: t })
            } else {
                None
            },
            _ => None,
        };
        match new_instr {
            Some(ni) => {
                let ghost old_instrs = self.chunk.instrs@;
                assert(instr_ok(ni, self.chunk.constants@.len() as int, self.chunk.names@.len() as int, self.chunk.num_registers as int, self.chunk.instrs@.len() as int));
                assert(ni == patched(old_instrs[idx as int], addr_of(target), with_iter));
                self.chunk.instrs.set(idx, ni);
                assert forall|i: int| 0 <= i < self.chunk.instrs@.len() implies instr_ok(
                    #[trigger] self.chunk.instrs@[i],
                    self.chunk.constants@.len() as int,
                    self.chunk.names@.len() as int,
                    self.chunk.num_registers as int,
                    self.chunk.instrs@.len() as int,
                ) by {
                    if i != idx {
                        assert(self.chunk.instrs@[i] == old_instrs[i]);
                    }
                }
            },
            None => {
                assert(self.chunk.instrs@ =~= self.chunk.instrs@.update(idx as int, patched(self.chunk.instrs@[idx as int], addr_of(target), with_iter)));
            },
        }
        assert(self.state() =~= s_patch(old(self).state(), idx as int, target, with_iter));
    }

    /// Points the jump at `idx` to the end of the code so far.
    fn patch_jump(&mut self, idx: usize)
        requires
            state_ok(old(self)),
            idx < old(self).chunk.instrs@.len(),
        ensures
            state_ok(final(self)),
            grows(old(self), final(self)),
            final(self).chunk.instrs@.len() == old(self).chunk.instrs@.len(),
            final(self).locals@ == old(self).locals@,
            final(self).loops@ == old(self).loops@,
            final(self).next_reg == old(self).next_reg,
            final(self).overflow == old(self).overflow,
            forall|i: int| 0 <= i < final(self).chunk.instrs@.len() && i != idx ==> #[trigger] final(self).chunk.instrs@[i] == old(self).chunk.instrs@[i],
            written_reg(final(self).chunk.instrs@[idx as int]) == written_reg(old(self).chunk.instrs@[idx as int]),
            final(self).chunk.instrs@[idx as int] == patched(
                old(self).chunk.instrs@[idx as int],
                addr_of(old(self).chunk.instrs@.len() as usize),
                true,
            ),
            final(self).state() == s_patch(old(self).state(), idx as int, old(self).chunk.instrs@.len() as usize, true),
    {
        let target = self.chunk.instrs.len();
        self.patch_to(idx, target, true)
    }

    fn pc(&self) -> (r: usize)
        ensures
            r == self.chunk.instrs@.len(),
    {
        self.chunk.instrs.len()
    }

    fn is_last_return(&self) -> (r: bool)
        ensures
            r == (self.chunk.instrs@.len() > 0 && self.chunk.instrs@.last() is Return),
    {
        let n = self.chunk.instrs.len();
        if n == 0 {
            return false;
        }
        match &self.chunk.instrs[n - 1] {
            Instr::Return { .. } => true,
            _ => false,
        }
    }
}

// ── Names and expressions ──────────────────────────────────────────────────

impl Compiler {
    /// Stores register `reg` in variable `name`: a global in a module; in a
    /// function, a move into the variable's register, or the register becomes
    /// the variable's.
    fn store_name(&mut self, name: &str, reg: Reg)
        requires
            state_ok(old(self)),
            reg_ok(reg, old(self).chunk.num_registers as int),
        ensures
            state_ok(final(self)),
            grows(old(self), final(self)),
            final(self).loops@ == old(self).loops@,
            final(self).chunk.constants@ == old(self).chunk.constants@,
            final(self).state() == s_store_name(old(self).state(), name@, reg),
    {
        if self.is_module {
            let ni = self.add_name(name.to_owned());
            self.emit(Instr::StoreGlobal { name: ni, src: reg });
        } else {
            match self.locals.get(name) {
                Some(existing) => {
                    self.emit(Instr::Move { dst: existing, src: reg });
                },
                None => {
                    self.locals.insert(name.to_owned(), reg);
                    assert(self.state() == s_store_name(old(self).state(), name@, reg));
                },
            }
        }
    }

    /// The register holding variable `name`: its local register, or a fresh
    /// register loaded from the global of that name.
    fn load_name(&mut self, name: &str) -> (r: Reg)
        requires
            state_ok(old(self)),
        ensures
            state_ok(final(self)),
            grows(old(self), final(self)),
            reg_ok(r, final(self).chunk.num_registers as int),
            final(self).loops@ == old(self).loops@,
            fresh_since(old(self), final(self)),
            fresh_or_local(old(self), final(self), r),
            (final(self).state(), r) == s_load_name(old(self).state(), name@),
    {
        match self.locals.get(name) {
            Some(r) => return r,
            None => {},
        }
        let dst = self.fresh_reg();
        let ni = self.add_name(name.to_owned());
        self.emit(Instr::LoadGlobal { dst, name: ni });
        dst
    }

    /// Loads constant `val` into a fresh register.
    fn load_const(&mut self, val: Value) -> (r: Reg)
        requires
            state_ok(old(self)),
        ensures
            state_ok(final(self)),
            grows(old(self), final(self)),
            reg_ok(r, final(self).chunk.num_registers as int),
            final(self).loops@ == old(self).loops@,
            final(self).chunk.constants@ == old(self).chunk.constants@.push(val),
            final(self).chunk.instrs@.len() > 0,
            final(self).chunk.instrs@.last() matches Instr::LoadConst { dst, idx } && dst == r
                && idx.0 == old(self).chunk.constants@.len() % 65536,
            fresh_since(old(self), final(self)),
            !final(self).overflow ==> old(self).next_reg <= r.0 < final(self).next_reg,
            (final(self).state(), r) == s_load_const(old(self).state(), cv(val)),
    {
        let r = self.fresh_reg();
        let ci = self.add_const(val);
        self.emit(Instr::LoadConst { dst: r, idx: ci });
        r
    }

    /// Compiles the arguments of a call, left to right.
    #[verifier::spinoff_prover]
    fn compile_call_args(&mut self, args: &Vec<CallArg>) -> (r: Vec<CallArgDesc>)
        requires
            state_ok(old(self)),
        ensures
            state_ok(final(self)),
            grows(old(self), final(self)),
            args_ok(r@, final(self).chunk.num_registers as int, final(self).chunk.names@.len() as int),
            final(self).loops@ == old(self).loops@,
            fresh_since(old(self), final(self)),
            r@.len() == args@.len(),
            (final(self).state(), r@) == cfa(old(self).state(), args@),
        decreases args, 0nat,
    {
        let mut out: Vec<CallArgDesc> = Vec::new();
        let mut i: usize = 0;
        while i < args.len()
            invariant
                i <= args@.len(),
                state_ok(self),
                grows(old(self), self),
                self.loops@ == old(self).loops@,
                args_ok(out@, self.chunk.num_registers as int, self.chunk.names@.len() as int),
                fresh_since(old(self), self),
                out@.len() == i,
                (self.state(), out@) == cfa(old(self).state(), args@.take(i as int)),
                decreases_to!(args => args@),
            decreases args@.len() - i,
        {
            proof {
                assert(decreases_to!(args@ => args@[i as int]));
            }
            let ghost nr0 = self.chunk.num_registers as int;
            let ghost nn0 = self.chunk.names@.len() as int;
            let ghost s0 = self.state();
            let reg = self.compile_expr(&args[i].expr);
            let ghost s1 = self.state();
            let name = match &args[i].name {
                Some(n) => Some(self.add_name(n.clone())),
                None => None,
            };
            let ghost before = out@;
            proof {
                lemma_args_ok_grow(before, nr0, nn0, self.chunk.num_registers as int, self.chunk.names@.len() as int);
            }
            out.push(CallArgDesc { name, reg });
            proof {
                assert(args@.take(i + 1).drop_last() =~= args@.take(i as int));
                assert(args@.take(i + 1).last() == args@[i as int]);
                assert((s1, reg) == cf(s0, args@[i as int].expr));
                assert((s0, before) == cfa(old(self).state(), args@.take(i as int)));
            }
            assert forall|j: int| 0 <= j < out@.len() implies reg_ok(
                #[trigger] out@[j].reg,
                self.chunk.num_registers as int,
            ) && match out@[j].name {
                Some(n) => crate::compiler::bytecode::name_ok(n, self.chunk.names@.len() as int),
                None => true,
            } by {
                if j < before.len() {
                    assert(out@[j] == before[j]);
                }
            }
            i = i + 1;
        }
        assert(args@.take(args@.len() as int) =~= args@);
        out
    }

    /// Gives the registers of the parameters to the parameters, in order.
    fn bind_params(&mut self, params: &Vec<Param>)
        requires
            state_ok(old(self)),
            old(self).next_reg == 0,
            old(self).chunk.num_registers == 0,
            !old(self).is_module,
        ensures
            state_ok(final(self)),
            final(self).loops@ == old(self).loops@,
            final(self).chunk.instrs@ == old(self).chunk.instrs@,
            final(self).chunk.name == old(self).chunk.name,
            final(self).is_module == old(self).is_module,
            param_names_of(final(self).chunk.param_names@, params@),
            final(self).state() == s_bind(old(self).state(), params@),
    {
        let mut names: Vec<String> = Vec::new();
        let mut i: usize = 0;
        while i < params.len()
            invariant
                i <= params@.len(),
                state_ok(self),
                grows(old(self), self),
                self.loops@ == old(self).loops@,
                self.chunk.instrs@ == old(self).chunk.instrs@,
                self.overflow || self.next_reg as int == i,
                param_names_of(names@, params@.take(i as int)),
                self.state() == (CState { params: old(self).state().params, ..s_bind_regs(old(self).state(), params@.take(i as int)) }),
            decreases params@.len() - i,
        {
            let ghost prev = names@;
            names.push(params[i].name.clone());
            assert(names@.drop_last() == prev);
            assert(params@.take(i + 1).drop_last() =~= params@.take(i as int));
            if i < 255 && !self.overflow {
                let ghost nr0 = self.chunk.num_registers as int;
                self.locals.insert(params[i].name.clone(), Reg(i as u8));
                self.next_reg = (i + 1) as u8;
                self.chunk.num_registers = self.next_reg as u16;
                proof {
                    lemma_all_grow(self.chunk.instrs@, self.chunk.constants@.len() as int, self.chunk.names@.len() as int, nr0, self.chunk.instrs@.len() as int, self.chunk.constants@.len() as int, self.chunk.names@.len() as int, self.chunk.num_registers as int, self.chunk.instrs@.len() as int);
                }
            } else {
                self.overflow = true;
            }
            i = i + 1;
        }
        assert(params@.take(params@.len() as int) =~= params@);
        let ghost before = self.state();
        self.chunk.param_names = names;
        proof {
            assert(names_v(self.chunk.param_names@) =~= param_names_v(params@));
            assert(self.state() == s_bind(old(self).state(), params@));
        }
    }

    /// Compiles an expression; its value ends up in the returned register.
    ///
    /// The code added writes only registers allocated meanwhile, and the
    /// result is such a register or a local's: evaluating an expression
    /// leaves every local and every earlier temporary as it was.
    #[verifier::spinoff_prover]
    fn compile_expr(&mut self, expr: &Expr) -> (r: Reg)
        requires
            state_ok(old(self)),
        ensures
            state_ok(final(self)),
            grows(old(self), final(self)),
            reg_ok(r, final(self).chunk.num_registers as int),
            final(self).loops@ == old(self).loops@,
            fresh_since(old(self), final(self)),
            fresh_or_local(old(self), final(self), r),
            (final(self).state(), r) == cf(old(self).state(), *expr),
        decreases expr, 1nat,
    {
        match &expr.kind {
            ExprKind::Null => self.load_const(Value::Null),
            ExprKind::Bool(b) => self.load_const(Value::Bool(*b)),
            ExprKind::Int(n) => self.load_const(Value::Int(*n)),
            ExprKind::Float(t) => self.load_const(Value::Float(t.clone())),
            ExprKind::Str(t) => self.load_const(Value::Str(t.clone())),
            ExprKind::Ident(name) => self.load_name(name.as_str()),
            ExprKind::BinOp { op, .. } => if *op == BinOp::And || *op == BinOp::Or {
                self.compile_logic(expr)
            } else {
                self.compile_arith(expr)
            },
            ExprKind::UnaryOp { .. } => self.compile_unary(expr),
            ExprKind::Call { .. } => self.compile_call(expr),
            ExprKind::Index { .. } => self.compile_index(expr),
            ExprKind::Field { .. } => self.compile_field(expr),
            ExprKind::List(items) => self.compile_list(items),
            ExprKind::Dict(pairs) => self.compile_map(pairs),
            ExprKind::Lambda { .. } => self.compile_lambda(expr),
            ExprKind::Interp(parts) => self.compile_interp(parts),
            ExprKind::Ternary { .. } => self.compile_ternary(expr),
            ExprKind::Propagate(inner) => {
                let r = self.compile_expr(&**inner);
                self.emit(Instr::Propagate { src: r });
                r
            },
            ExprKind::Spawn(_) => self.compile_spawn(expr),
        }
    }

    /// A lambda: its body compiled in a fresh function compiler, loaded as a constant.
    #[verifier::spinoff_prover]
    #[verifier::rlimit(100)]
    fn compile_lambda(&mut self, expr: &Expr) -> (r: Reg)
        requires
            state_ok(old(self)),
            expr.kind is Lambda,
        ensures
            state_ok(final(self)),
            grows(old(self), final(self)),
            reg_ok(r, final(self).chunk.num_registers as int),
            final(self).loops@ == old(self).loops@,
            fresh_since(old(self), final(self)),
            fresh_or_local(old(self), final(self), r),
            (final(self).state(), r) == cf(old(self).state(), *expr),
        decreases expr, 0nat,
    {
        match &expr.kind {
            ExprKind::Lambda { params, body, .. } => {
                let ghost a = self.state();
                let mut sub = Compiler::new_fn("<lambda>".to_owned());
                sub.bind_params(params);
                let ghost s0 = sub.state();
                sub.compile_block(body);
                let ghost s1 = sub.state();
                if !sub.is_last_return() {
                    sub.emit(Instr::Return { src: None });
                }
                let ghost sf = sub.state();
                if sub.overflow {
                    self.overflow = true;
                }
                proof {
                    lemma_chunk_of(sub);
                }
                let v = Value::Function(Box::new(sub.chunk));
                proof {
                    assert(s1 == fb(s0, body@));
                    assert(sf == s_finish(s1));
                    assert(sf == fn_state("<lambda>"@, params@, body@));
                    assert(cv(v) == CV::Function(chunk_of(sf)));
                    assert(self.state() == (CState { overflow: a.overflow || sf.overflow, ..a }));
                }
                let ghost a1 = self.state();
                let r = self.load_const(v);
                proof {
                    assert((self.state(), r) == s_load_const(a1, CV::Function(chunk_of(sf))));
                    assert((self.state(), r) == s_fn_const(a, "<lambda>"@, params@, body@));
                    assert(cf(a, *expr) == s_fn_const(a, "<lambda>"@, params@, body@));
                }
                r
            },
            _ => {
                proof { assert(false); }
                Reg(0)
            },
        }
    }

    /// `and` and `or`: the left value in a fresh register, then the right one only where the left does not decide.
    #[verifier::spinoff_prover]
    fn compile_logic(&mut self, expr: &Expr) -> (r: Reg)
        requires
            state_ok(old(self)),
            expr.kind matches ExprKind::BinOp { op, .. } && (op is And || op is Or),
        ensures
            state_ok(final(self)),
            grows(old(self), final(self)),
            reg_ok(r, final(self).chunk.num_registers as int),
            final(self).loops@ == old(self).loops@,
            fresh_since(old(self), final(self)),
            fresh_or_local(old(self), final(self), r),
            (final(self).state(), r) == cf(old(self).state(), *expr),
        decreases expr, 0nat,
    {
        let ghost a = self.state();
        match &expr.kind {
            ExprKind::BinOp { op, left, right } => {
                let r_dst = self.fresh_reg();
                let ghost s0 = self.state();
                let r_l = self.compile_expr(&**left);
                let ghost s1 = self.state();
                self.emit(Instr::Move { dst: r_dst, src: r_l });
                let jf = if *op == BinOp::And { self.emit_jump_if_false(r_dst) } else { self.emit_jump_if_true(r_dst) };
                let ghost s3 = self.state();
                let r_r = self.compile_expr(&**right);
                let ghost s4 = self.state();
                self.emit(Instr::Move { dst: r_dst, src: r_r });
                self.patch_jump(jf);
                proof {
                    assert((s1, r_l) == cf(s0, **left) && (s4, r_r) == cf(s3, **right));
                }
                r_dst
            },
            _ => {
                proof { assert(false); }
                Reg(0)
            },
        }
    }

    /// A range, or an operator computed by one instruction from its two operands.
    #[verifier::spinoff_prover]
    fn compile_arith(&mut self, expr: &Expr) -> (r: Reg)
        requires
            state_ok(old(self)),
            expr.kind matches ExprKind::BinOp { op, .. } && !(op is And || op is Or),
        ensures
            state_ok(final(self)),
            grows(old(self), final(self)),
            reg_ok(r, final(self).chunk.num_registers as int),
            final(self).loops@ == old(self).loops@,
            fresh_since(old(self), final(self)),
            fresh_or_local(old(self), final(self), r),
            (final(self).state(), r) == cf(old(self).state(), *expr),
        decreases expr, 0nat,
    {
        let ghost a = self.state();
        match &expr.kind {
            ExprKind::BinOp { op, left, right } => {
                let ra = self.compile_expr(&**left);
                let ghost s1 = self.state();
                let rb = self.compile_expr(&**right);
                let ghost s2 = self.state();
                let dst = self.fresh_reg();
                let instr = match op {
                    BinOp::DotDot => Instr::MakeRange { dst, start: ra, end: rb },
                    BinOp::Plus => Instr::AddInt { dst, a: ra, b: rb },
                    BinOp::Minus => Instr::SubInt { dst, a: ra, b: rb },
                    BinOp::Star => Instr::MulInt { dst, a: ra, b: rb },
                    BinOp::Slash => Instr::DivInt { dst, a: ra, b: rb },
                    BinOp::Percent => Instr::Mod { dst, a: ra, b: rb },
                    BinOp::EqEq => Instr::CmpEq { dst, a: ra, b: rb },
                    BinOp::BangEq => Instr::CmpNe { dst, a: ra, b: rb },
                    BinOp::Lt => Instr::CmpLt { dst, a: ra, b: rb },
                    BinOp::Gt => Instr::CmpGt { dst, a: ra, b: rb },
                    BinOp::LtEq => Instr::CmpLe { dst, a: ra, b: rb },
                    BinOp::GtEq => Instr::CmpGe { dst, a: ra, b: rb },
                    _ => Instr::Move { dst, src: ra },
                };
                self.emit(instr);
                proof {
                    assert((s1, ra) == cf(a, **left) && (s2, rb) == cf(s1, **right));
                    if !(*op is DotDot) {
                        assert(instr == binop_instr(*op, dst, ra, rb));
                    }
                }
                dst
            },
            _ => {
                proof { assert(false); }
                Reg(0)
            },
        }
    }

    /// `-x` or `not x`.
    #[verifier::spinoff_prover]
    fn compile_unary(&mut self, expr: &Expr) -> (r: Reg)
        requires
            state_ok(old(self)),
            expr.kind is UnaryOp,
        ensures
            state_ok(final(self)),
            grows(old(self), final(self)),
            reg_ok(r, final(self).chunk.num_registers as int),
            final(self).loops@ == old(self).loops@,
            fresh_since(old(self), final(self)),
            fresh_or_local(old(self), final(self), r),
            (final(self).state(), r) == cf(old(self).state(), *expr),
        decreases expr, 0nat,
    {
        let ghost a = self.state();
        match &expr.kind {
            ExprKind::UnaryOp { op, expr: inner } => {
                let r0 = self.compile_expr(&**inner);
                let ghost s1 = self.state();
                let dst = self.fresh_reg();
                match op {
                    UnaryOp::Minus => {
                        self.emit(Instr::Negate { dst, src: r0 });
                    },
                    UnaryOp::Not => {
                        self.emit(Instr::Not { dst, src: r0 });
                    },
                }
                proof {
                    assert((s1, r0) == cf(a, **inner));
                }
                dst
            },
            _ => {
                proof { assert(false); }
                Reg(0)
            },
        }
    }

    /// A call: the callee, the arguments, the call into a fresh register.
    #[verifier::spinoff_prover]
    fn compile_call(&mut self, expr: &Expr) -> (r: Reg)
        requires
            state_ok(old(self)),
            expr.kind is Call,
        ensures
            state_ok(final(self)),
            grows(old(self), final(self)),
            reg_ok(r, final(self).chunk.num_registers as int),
            final(self).loops@ == old(self).loops@,
            fresh_since(old(self), final(self)),
            fresh_or_local(old(self), final(self), r),
            (final(self).state(), r) == cf(old(self).state(), *expr),
        decreases expr, 0nat,
    {
        let ghost a = self.state();
        match &expr.kind {
            ExprKind::Call { callee, args } => {
                let r_callee = self.compile_expr(&**callee);
                let ghost s1 = self.state();
                let arg_regs = self.compile_call_args(args);
                let ghost s2 = self.state();
                let ghost (nr0, nn0) = (self.chunk.num_registers as int, self.chunk.names@.len() as int);
                let dst = self.fresh_reg();
                proof {
                    lemma_args_ok_grow(arg_regs@, nr0, nn0, self.chunk.num_registers as int, self.chunk.names@.len() as int);
                }
                let ghost descs = arg_regs@;
                self.emit(Instr::Call { dst: Some(dst), callee: r_callee, args: arg_regs });
                proof {
                    assert((s1, r_callee) == cf(a, **callee) && (s2, descs) == cfa(s1, args@));
                }
                dst
            },
            _ => {
                proof { assert(false); }
                Reg(0)
            },
        }
    }

    /// `obj[idx]`.
    #[verifier::spinoff_prover]
    fn compile_index(&mut self, expr: &Expr) -> (r: Reg)
        requires
            state_ok(old(self)),
            expr.kind is Index,
        ensures
            state_ok(final(self)),
            grows(old(self), final(self)),
            reg_ok(r, final(self).chunk.num_registers as int),
            final(self).loops@ == old(self).loops@,
            fresh_since(old(self), final(self)),
            fresh_or_local(old(self), final(self), r),
            (final(self).state(), r) == cf(old(self).state(), *expr),
        decreases expr, 0nat,
    {
        let ghost a = self.state();
        match &expr.kind {
            ExprKind::Index { obj, idx } => {
                let r_obj = self.compile_expr(&**obj);
                let ghost s1 = self.state();
                let r_idx = self.compile_expr(&**idx);
                let ghost s2 = self.state();
                let dst = self.fresh_reg();
                let ghost s3 = self.state();
                self.emit(Instr::LoadIndex { dst, obj: r_obj, idx: r_idx });
                proof {
                    assert((s1, r_obj) == cf(a, **obj) && (s2, r_idx) == cf(s1, **idx));
                    assert((s3, dst) == s_fresh(s2));
                    assert(self.state() == s_emit(s3, IV::Plain(Instr::LoadIndex { dst, obj: r_obj, idx: r_idx })));
                    assert(expr.kind == ExprKind::Index { obj: *obj, idx: *idx });
                }
                dst
            },
            _ => {
                proof { assert(false); }
                Reg(0)
            },
        }
    }

    /// `obj.field`.
    #[verifier::spinoff_prover]
    fn compile_field(&mut self, expr: &Expr) -> (r: Reg)
        requires
            state_ok(old(self)),
            expr.kind is Field,
        ensures
            state_ok(final(self)),
            grows(old(self), final(self)),
            reg_ok(r, final(self).chunk.num_registers as int),
            final(self).loops@ == old(self).loops@,
            fresh_since(old(self), final(self)),
            fresh_or_local(old(self), final(self), r),
            (final(self).state(), r) == cf(old(self).state(), *expr),
        decreases expr, 0nat,
    {
        let ghost a = self.state();
        match &expr.kind {
            ExprKind::Field { obj, field, .. } => {
                let r_obj = self.compile_expr(&**obj);
                let ghost s1 = self.state();
                let fi = self.add_name(field.clone());
                let dst = self.fresh_reg();
                self.emit(Instr::LoadField { dst, obj: r_obj, field: fi });
                proof {
                    assert((s1, r_obj) == cf(a, **obj));
                }
                dst
            },
            _ => {
                proof { assert(false); }
                Reg(0)
            },
        }
    }

    /// `then if cond else other`, into a fresh register.
    #[verifier::spinoff_prover]
    fn compile_ternary(&mut self, expr: &Expr) -> (r: Reg)
        requires
            state_ok(old(self)),
            expr.kind is Ternary,
        ensures
            state_ok(final(self)),
            grows(old(self), final(self)),
            reg_ok(r, final(self).chunk.num_registers as int),
            final(self).loops@ == old(self).loops@,
            fresh_since(old(self), final(self)),
            fresh_or_local(old(self), final(self), r),
            (final(self).state(), r) == cf(old(self).state(), *expr),
        decreases expr, 0nat,
    {
        let ghost a = self.state();
        match &expr.kind {
            ExprKind::Ternary { cond, then, else_ } => {
                let r_dst = self.fresh_reg();
                let ghost s0 = self.state();
                let r_cond = self.compile_expr(&**cond);
                let ghost s1 = self.state();
                let jf = self.emit_jump_if_false(r_cond);
                let ghost s2 = self.state();
                let r_then = self.compile_expr(&**then);
                let ghost s3 = self.state();
                self.emit(Instr::Move { dst: r_dst, src: r_then });
                let jmp = self.emit_jump();
                self.patch_jump(jf);
                let ghost s6 = self.state();
                let r_else = self.compile_expr(&**else_);
                let ghost s7 = self.state();
                self.emit(Instr::Move { dst: r_dst, src: r_else });
                self.patch_jump(jmp);
                proof {
                    assert((s1, r_cond) == cf(s0, **cond) && (s3, r_then) == cf(s2, **then) && (s7, r_else) == cf(s6, **else_));
                }
                r_dst
            },
            _ => {
                proof { assert(false); }
                Reg(0)
            },
        }
    }

    /// `spawn f(args)`: the spawn, then `null` as the value.
    #[verifier::spinoff_prover]
    fn compile_spawn(&mut self, expr: &Expr) -> (r: Reg)
        requires
            state_ok(old(self)),
            expr.kind is Spawn,
        ensures
            state_ok(final(self)),
            grows(old(self), final(self)),
            reg_ok(r, final(self).chunk.num_registers as int),
            final(self).loops@ == old(self).loops@,
            fresh_since(old(self), final(self)),
            fresh_or_local(old(self), final(self), r),
            (final(self).state(), r) == cf(old(self).state(), *expr),
        decreases expr, 0nat,
    {
        let ghost a = self.state();
        match &expr.kind {
            ExprKind::Spawn(inner) => {
                match &inner.kind {
                    ExprKind::Call { callee, args } => {
                        let r_callee = self.compile_expr(&**callee);
                        let ghost s1 = self.state();
                        let arg_regs = self.compile_call_args(args);
                        let ghost s2 = self.state();
                        let ghost descs = arg_regs@;
                        self.emit(Instr::Spawn { callee: r_callee, args: arg_regs });
                        proof {
                            assert((s1, r_callee) == cf(a, **callee) && (s2, descs) == cfa(s1, args@));
                        }
                    },
                    _ => {
                        let r_fn = self.compile_expr(&**inner);
                        let ghost s1 = self.state();
                        self.emit(Instr::Spawn { callee: r_fn, args: Vec::new() });
                        proof {
                            assert((s1, r_fn) == cf(a, **inner));
                        }
                    },
                }
                let ghost s3 = self.state();
                let r = self.load_const(Value::Null);
                proof {
                    assert((self.state(), r) == s_load_const(s3, CV::Plain(Value::Null)));
                }
                r
            },
            _ => {
                proof { assert(false); }
                Reg(0)
            },
        }
    }

    /// Compiles the items of a list literal and builds the list.
    #[verifier::spinoff_prover]
    fn compile_list(&mut self, items: &Vec<Expr>) -> (r: Reg)
        requires
            state_ok(old(self)),
        ensures
            state_ok(final(self)),
            grows(old(self), final(self)),
            reg_ok(r, final(self).chunk.num_registers as int),
            final(self).loops@ == old(self).loops@,
            fresh_since(old(self), final(self)),
            fresh_or_local(old(self), final(self), r),
            final(self).chunk.instrs@.last() matches Instr::MakeList { dst, items: regs } && dst == r
                && regs@.len() == items@.len(),
            (final(self).state(), r) == cf_list(old(self).state(), items@),
        decreases items, 0nat,
    {
        let mut regs: Vec<Reg> = Vec::new();
        let mut i: usize = 0;
        while i < items.len()
            invariant
                i <= items@.len(),
                state_ok(self),
                grows(old(self), self),
                self.loops@ == old(self).loops@,
                regs_ok(regs@, self.chunk.num_registers as int),
                fresh_since(old(self), self),
                regs@.len() == i,
                (self.state(), regs@) == cfl(old(self).state(), items@.take(i as int)),
                decreases_to!(items => items@),
            decreases items@.len() - i,
        {
            proof {
                assert(decreases_to!(items@ => items@[i as int]));
            }
            let ghost s0 = self.state();
            let ghost rs = regs@;
            let r = self.compile_expr(&items[i]);
            regs.push(r);
            proof {
                assert(items@.take(i + 1).drop_last() =~= items@.take(i as int));
                assert(items@.take(i + 1).last() == items@[i as int]);
                assert((s0, rs) == cfl(old(self).state(), items@.take(i as int)));
                assert((self.state(), r) == cf(s0, items@[i as int]));
            }
            i = i + 1;
        }
        assert(items@.take(items@.len() as int) =~= items@);
        let ghost s1 = self.state();
        let ghost rg = regs@;
        let dst = self.fresh_reg();
        self.emit(Instr::MakeList { dst, items: regs });
        assert((s1, rg) == cfl(old(self).state(), items@));
        dst
    }

    /// Compiles the entries of a map literal and builds the map.
    #[verifier::spinoff_prover]
    fn compile_map(&mut self, pairs: &Vec<(Expr, Expr)>) -> (r: Reg)
        requires
            state_ok(old(self)),
        ensures
            state_ok(final(self)),
            grows(old(self), final(self)),
            reg_ok(r, final(self).chunk.num_registers as int),
            final(self).loops@ == old(self).loops@,
            fresh_since(old(self), final(self)),
            fresh_or_local(old(self), final(self), r),
            final(self).chunk.instrs@.last() matches Instr::MakeMap { dst, pairs: regs } && dst == r
                && regs@.len() == pairs@.len(),
            (final(self).state(), r) == cf_map(old(self).state(), pairs@),
        decreases pairs, 0nat,
    {
        let mut regs: Vec<(Reg, Reg)> = Vec::new();
        let mut i: usize = 0;
        while i < pairs.len()
            invariant
                i <= pairs@.len(),
                state_ok(self),
                grows(old(self), self),
                self.loops@ == old(self).loops@,
                forall|j: int|
                    0 <= j < regs@.len() ==> reg_ok(#[trigger] regs@[j].0, self.chunk.num_registers as int)
                        && reg_ok(regs@[j].1, self.chunk.num_registers as int),
                fresh_since(old(self), self),
                regs@.len() == i,
                (self.state(), regs@) == cfp(old(self).state(), pairs@.take(i as int)),
                decreases_to!(pairs => pairs@),
            decreases pairs@.len() - i,
        {
            proof {
                assert(decreases_to!(pairs@ => pairs@[i as int]));
            }
            let ghost nr0 = self.chunk.num_registers as int;
            let ghost s0 = self.state();
            let k = self.compile_expr(&pairs[i].0);
            let ghost s1 = self.state();
            let v = self.compile_expr(&pairs[i].1);
            let ghost prev = regs@;
            proof {
                assert(pairs@.take(i + 1).drop_last() =~= pairs@.take(i as int));
                assert(pairs@.take(i + 1).last() == pairs@[i as int]);
                assert((s0, prev) == cfp(old(self).state(), pairs@.take(i as int)));
                assert((s1, k) == cf(s0, pairs@[i as int].0));
                assert((self.state(), v) == cf(s1, pairs@[i as int].1));
            }
            regs.push((k, v));
            assert forall|j: int| 0 <= j < regs@.len() implies reg_ok(#[trigger] regs@[j].0, self.chunk.num_registers as int)
                && reg_ok(regs@[j].1, self.chunk.num_registers as int) by {
                if j < prev.len() {
                    assert(regs@[j] == prev[j]);
                    assert(reg_ok(prev[j].0, nr0) && reg_ok(prev[j].1, nr0));
                }
            }
            i = i + 1;
        }
        assert(pairs@.take(pairs@.len() as int) =~= pairs@);
        let ghost s1 = self.state();
        let ghost rg = regs@;
        let dst = self.fresh_reg();
        self.emit(Instr::MakeMap { dst, pairs: regs });
        assert((s1, rg) == cfp(old(self).state(), pairs@));
        dst
    }

    /// Compiles the parts of an interpolated string and concatenates them.
    #[verifier::spinoff_prover]
    fn compile_interp(&mut self, parts: &Vec<InterpPart>) -> (r: Reg)
        requires
            state_ok(old(self)),
        ensures
            state_ok(final(self)),
            grows(old(self), final(self)),
            reg_ok(r, final(self).chunk.num_registers as int),
            final(self).loops@ == old(self).loops@,
            fresh_since(old(self), final(self)),
            fresh_or_local(old(self), final(self), r),
            (final(self).state(), r) == cf_interp(old(self).state(), parts@),
        decreases parts, 0nat,
    {
        let mut regs: Vec<Reg> = Vec::new();
        let mut i: usize = 0;
        while i < parts.len()
            invariant
                i <= parts@.len(),
                state_ok(self),
                grows(old(self), self),
                self.loops@ == old(self).loops@,
                regs_ok(regs@, self.chunk.num_registers as int),
                fresh_since(old(self), self),
                forall|j: int| 0 <= j < regs@.len() ==> fresh_or_local(old(self), self, #[trigger] regs@[j]),
                (self.state(), regs@) == cfs(old(self).state(), parts@.take(i as int)),
                decreases_to!(parts => parts@),
            decreases parts@.len() - i,
        {
            proof {
                assert(decreases_to!(parts@ => parts@[i as int]));
            }
            let ghost s0 = self.state();
            let ghost rs = regs@;
            match &parts[i] {
                InterpPart::Str(t) => {
                    if !t.as_str().is_empty() {
                        let ci = self.add_const(Value::Str(t.clone()));
                        let r = self.fresh_reg();
                        self.emit(Instr::LoadConst { dst: r, idx: ci });
                        regs.push(r);
                    }
                },
                InterpPart::Expr(e) => {
                    let r = self.compile_expr(e);
                    let ghost s1 = self.state();
                    let t = self.fresh_reg();
                    self.emit(Instr::Stringify { dst: t, src: r });
                    regs.push(t);
                    assert((s1, r) == cf(s0, *e));
                },
            }
            proof {
                assert(parts@.take(i + 1).drop_last() =~= parts@.take(i as int));
                assert(parts@.take(i + 1).last() == parts@[i as int]);
                assert((s0, rs) == cfs(old(self).state(), parts@.take(i as int)));
            }
            i = i + 1;
        }
        assert(parts@.take(parts@.len() as int) =~= parts@);
        let ghost s1 = self.state();
        let ghost rg = regs@;
        assert((s1, rg) == cfs(old(self).state(), parts@));
        if regs.len() == 1 {
            return regs[0];
        }
        let dst = self.fresh_reg();
        self.emit(Instr::Concat { dst, parts: regs });
        dst
    }

}

// ── Statements ─────────────────────────────────────────────────────────────

impl Compiler {
    /// Compiles the statements of a block in order.
    #[verifier::spinoff_prover]
    fn compile_block(&mut self, body: &Vec<Stmt>)
        requires
            state_ok(old(self)),
        ensures
            state_ok(final(self)),
            grows(old(self), final(self)),
            final(self).state() == fb(old(self).state(), body@),
        decreases body, 0nat,
    {
        let mut i: usize = 0;
        while i < body.len()
            invariant
                i <= body@.len(),
                state_ok(self),
                grows(old(self), self),
                self.state() == fb(old(self).state(), body@.take(i as int)),
                decreases_to!(body => body@),
            decreases body@.len() - i,
        {
            proof {
                assert(decreases_to!(body@ => body@[i as int]));
            }
            let ghost s0 = self.state();
            self.compile_stmt(&body[i]);
            proof {
                assert(body@.take(i + 1).drop_last() =~= body@.take(i as int));
                assert(body@.take(i + 1).last() == body@[i as int]);
                assert(s0 == fb(old(self).state(), body@.take(i as int)));
            }
            i = i + 1;
        }
        assert(body@.take(body@.len() as int) =~= body@);
    }

    /// Records a pending jump in the innermost loop.
    fn push_patch(&mut self, p: usize, is_break: bool)
        requires
            state_ok(old(self)),
            p < old(self).chunk.instrs@.len(),
        ensures
            state_ok(final(self)),
            grows(old(self), final(self)),
            final(self).chunk.instrs@ == old(self).chunk.instrs@,
            final(self).locals@ == old(self).locals@,
            final(self).next_reg == old(self).next_reg,
            final(self).loops@.len() == old(self).loops@.len(),
            forall|j: int| 0 <= j < old(self).loops@.len() - 1 ==> #[trigger] final(self).loops@[j] == old(self).loops@[j],
            old(self).loops@.len() > 0 ==> {
                let n = old(self).loops@.len() - 1;
                let (a, b) = (old(self).loops@[n], final(self).loops@[n]);
                &&& b.check_pc == a.check_pc
                &&& b.is_for == a.is_for
                &&& b.break_patches@ == (if is_break { a.break_patches@.push(p) } else { a.break_patches@ })
                &&& b.continue_patches@ == (if is_break { a.continue_patches@ } else { a.continue_patches@.push(p) })
            },
            final(self).state() == s_push_patch(old(self).state(), p, is_break),
    {
        if self.loops.len() == 0 {
            return;
        }
        let ghost len = self.chunk.instrs@.len() as int;
        let ghost before = self.loops@;
        let mut ctx = self.loops.pop().unwrap();
        assert(before[before.len() - 1] == ctx);
        if is_break {
            ctx.break_patches.push(p);
        } else {
            ctx.continue_patches.push(p);
        }
        self.loops.push(ctx);
        assert forall|j: int| 0 <= j < self.loops@.len() implies {
            &&& (#[trigger] self.loops@[j]).check_pc <= len
            &&& patches_ok(self.loops@[j].break_patches@, len)
            &&& patches_ok(self.loops@[j].continue_patches@, len)
        } by {
            if j < self.loops@.len() - 1 {
                assert(self.loops@[j] == before[j]);
            }
        }
    }

    /// Points every jump of `ps` to `target`.
    fn patch_all(&mut self, ps: &Vec<usize>, target: usize)
        requires
            state_ok(old(self)),
            patches_ok(ps@, old(self).chunk.instrs@.len() as int),
            target <= old(self).chunk.instrs@.len(),
        ensures
            state_ok(final(self)),
            grows(old(self), final(self)),
            final(self).chunk.instrs@.len() == old(self).chunk.instrs@.len(),
            final(self).loops@ == old(self).loops@,
            final(self).next_reg == old(self).next_reg,
            final(self).locals@ == old(self).locals@,
            forall|m: int| #![trigger patches_ok(ps@, m)] patches_ok(ps@, m) ==> forall|i: int|
                0 <= m <= i < final(self).chunk.instrs@.len() ==> #[trigger] final(self).chunk.instrs@[i] == old(self).chunk.instrs@[i],
            forall|i: int| 0 <= i < final(self).chunk.instrs@.len() ==> #[trigger] final(self).chunk.instrs@[i] == patched_if(
                old(self).chunk.instrs@[i],
                in_patches(ps@, i, ps@.len() as int),
                addr_of(target),
            ),
            final(self).state() == s_patch_all(old(self).state(), ps@, target),
    {
        let mut i: usize = 0;
        while i < ps.len()
            invariant
                i <= ps@.len(),
                state_ok(self),
                grows(old(self), self),
                self.chunk.instrs@.len() == old(self).chunk.instrs@.len(),
                self.loops@ == old(self).loops@,
                patches_ok(ps@, self.chunk.instrs@.len() as int),
                target <= self.chunk.instrs@.len(),
                self.next_reg == old(self).next_reg,
                self.locals@ == old(self).locals@,
                self.state() == (CState { instrs: self.state().instrs, ..old(self).state() }),
                forall|i2: int| 0 <= i2 < self.chunk.instrs@.len() && (forall|k: int| 0 <= k < i ==> #[trigger] ps@[k] != i2)
                    ==> #[trigger] self.chunk.instrs@[i2] == old(self).chunk.instrs@[i2],
                forall|i2: int| 0 <= i2 < self.chunk.instrs@.len() ==> #[trigger] self.chunk.instrs@[i2] == patched_if(
                    old(self).chunk.instrs@[i2],
                    in_patches(ps@, i2, i as int),
                    addr_of(target),
                ),
            decreases ps@.len() - i,
        {
            self.patch_to(ps[i], target, false);
            proof {
                assert forall|i2: int| 0 <= i2 < self.chunk.instrs@.len() implies #[trigger] self.chunk.instrs@[i2] == patched_if(
                    old(self).chunk.instrs@[i2],
                    in_patches(ps@, i2, i + 1),
                    addr_of(target),
                ) by {
                    assert(in_patches(ps@, i2, i + 1) == (in_patches(ps@, i2, i as int) || ps@[i as int] == i2));
                }
            }
            i = i + 1;
        }
        proof {
            let t = addr_of(target);
            assert forall|k: int| 0 <= k < self.chunk.instrs@.len() implies #[trigger] instrs_v(self.chunk.instrs@)[k]
                == s_patch_all(old(self).state(), ps@, target).instrs[k] by {
                let x = old(self).chunk.instrs@[k];
                assert(iv(patched(x, t, false)) == patched_v(iv(x), t, false));
            }
            assert(instrs_v(self.chunk.instrs@) =~= s_patch_all(old(self).state(), ps@, target).instrs);
        }
    }

    /// Opens a loop whose `continue` goes to `check_pc`.
    fn open_loop(&mut self, check_pc: usize, is_for: bool)
        requires
            state_ok(old(self)),
            check_pc <= old(self).chunk.instrs@.len(),
        ensures
            state_ok(final(self)),
            final(self).chunk == old(self).chunk,
            final(self).loops@.len() == old(self).loops@.len() + 1,
            final(self).is_module == old(self).is_module,
            final(self).overflow == old(self).overflow,
            final(self).state() == s_open(old(self).state(), check_pc, is_for),
    {
        let ghost before = self.loops@;
        let ghost len = self.chunk.instrs@.len() as int;
        self.loops.push(LoopCtx { break_patches: Vec::new(), continue_patches: Vec::new(), check_pc, is_for });
        assert forall|j: int| 0 <= j < self.loops@.len() implies {
            &&& (#[trigger] self.loops@[j]).check_pc <= len
            &&& patches_ok(self.loops@[j].break_patches@, len)
            &&& patches_ok(self.loops@[j].continue_patches@, len)
        } by {
            if j < before.len() {
                assert(self.loops@[j] == before[j]);
            }
        }
    }

    /// Closes the innermost loop, handing back its pending jumps.
    fn close_loop(&mut self) -> (r: LoopCtx)
        requires
            state_ok(old(self)),
            old(self).loops@.len() > 0,
        ensures
            state_ok(final(self)),
            final(self).chunk == old(self).chunk,
            final(self).loops@.len() == old(self).loops@.len() - 1,
            final(self).is_module == old(self).is_module,
            final(self).overflow == old(self).overflow,
            patches_ok(r.break_patches@, final(self).chunk.instrs@.len() as int),
            patches_ok(r.continue_patches@, final(self).chunk.instrs@.len() as int),
            final(self).state() == s_close(old(self).state()),
            loop_v(r) == old(self).state().loops.last(),
    {
        let ghost before = self.loops@;
        let ctx = self.loops.pop().unwrap();
        assert(before[before.len() - 1] == ctx);
        assert forall|j: int| 0 <= j < self.loops@.len() implies {
            &&& (#[trigger] self.loops@[j]).check_pc <= self.chunk.instrs@.len()
            &&& patches_ok(self.loops@[j].break_patches@, self.chunk.instrs@.len() as int)
            &&& patches_ok(self.loops@[j].continue_patches@, self.chunk.instrs@.len() as int)
        } by {
            assert(self.loops@[j] == before[j]);
        }
        ctx
    }

    /// Compiles one statement.
    #[verifier::spinoff_prover]
    fn compile_stmt(&mut self, stmt: &Stmt)
        requires
            state_ok(old(self)),
        ensures
            state_ok(final(self)),
            grows(old(self), final(self)),
            final(self).state() == fs(old(self).state(), *stmt),
        decreases stmt, 1nat,
    {
        let ghost a = self.state();
        match &stmt.kind {
            StmtKind::Export(inner) => {
                let export_name = match &inner.kind {
                    StmtKind::FnDef(f) => Some(f.name.clone()),
                    StmtKind::Assign { target, .. } => Some(target.clone()),
                    StmtKind::ClsDef(c) => Some(c.name.clone()),
                    _ => None,
                };
                self.compile_stmt(&**inner);
                let ghost s1 = self.state();
                match export_name {
                    Some(n) => {
                        let ghost nv = n@;
                        self.chunk.exports.push(n);
                        proof {
                            assert(self.chunk.exports@.map_values(|x: String| x@) =~= s1.exports.push(nv));
                            assert(self.state() == CState { exports: s1.exports.push(nv), ..s1 });
                        }
                    },
                    None => {},
                }
                assert(s1 == fs(a, **inner));
            },
            StmtKind::FnDef(_) => self.compile_fn_def(stmt),
            StmtKind::ClsDef(_) => self.compile_cls_def(stmt),
            StmtKind::Assign { target, value, .. } => {
                let r = self.compile_expr(value);
                let ghost s1 = self.state();
                self.store_name(target.as_str(), r);
                assert((s1, r) == cf(a, *value));
            },
            StmtKind::FieldAssign { obj, field, value, .. } => {
                let r_obj = self.compile_expr(obj);
                let ghost s1 = self.state();
                let r_val = self.compile_expr(value);
                let ghost s2 = self.state();
                let fi = self.add_name(field.clone());
                self.emit(Instr::StoreField { obj: r_obj, field: fi, src: r_val });
                assert((s1, r_obj) == cf(a, *obj) && (s2, r_val) == cf(s1, *value));
            },
            StmtKind::IndexAssign { obj, idx, value } => {
                let r_obj = self.compile_expr(obj);
                let ghost s1 = self.state();
                let r_idx = self.compile_expr(idx);
                let ghost s2 = self.state();
                let r_val = self.compile_expr(value);
                let ghost s3 = self.state();
                self.emit(Instr::StoreIndex { obj: r_obj, idx: r_idx, src: r_val });
                assert((s1, r_obj) == cf(a, *obj) && (s2, r_idx) == cf(s1, *idx) && (s3, r_val) == cf(s2, *value));
            },
            StmtKind::Return(e) => {
                match e {
                    Some(x) => {
                        let r = self.compile_expr(x);
                        let ghost s1 = self.state();
                        self.emit(Instr::Return { src: Some(r) });
                        assert((s1, r) == cf(a, *x));
                    },
                    None => {
                        self.emit(Instr::Return { src: None });
                    },
                }
            },
            StmtKind::Expr(e) => {
                let r = self.compile_expr(e);
                assert((self.state(), r) == cf(a, *e));
            },
            StmtKind::If { .. } => self.compile_if(stmt),
            StmtKind::While { .. } => self.compile_while(stmt),
            StmtKind::For { .. } => self.compile_for(stmt),
            StmtKind::ForKV { .. } => self.compile_for_kv(stmt),
            StmtKind::Break => {
                let p = self.emit_jump();
                self.push_patch(p, true);
            },
            StmtKind::Continue => {
                let n = self.loops.len();
                if n > 0 {
                    let is_for = self.loops[n - 1].is_for;
                    let check_pc = self.loops[n - 1].check_pc;
                    proof {
                        assert(a.loops.last() == loop_v(self.loops@[n - 1]));
                    }
                    if is_for {
                        let p = self.emit_jump();
                        self.push_patch(p, false);
                    } else {
                        let t = Self::addr(check_pc);
                        self.emit(Instr::Jump { target: t });
                    }
                }
            },
            StmtKind::Load { .. } => self.compile_load(stmt),
        }
    }

    /// An `if` with its `elif` branches and its `else` block.
    #[verifier::spinoff_prover]
    fn compile_if(&mut self, stmt: &Stmt)
        requires
            state_ok(old(self)),
            stmt.kind is If,
        ensures
            state_ok(final(self)),
            grows(old(self), final(self)),
            final(self).state() == fs(old(self).state(), *stmt),
        decreases stmt, 0nat,
    {
        let ghost a = self.state();
        match &stmt.kind {
            StmtKind::If { cond, then, elifs, else_ } => {
                let r_cond = self.compile_expr(cond);
                let ghost s1 = self.state();
                let jf = self.emit_jump_if_false(r_cond);
                let ghost s2 = self.state();
                self.compile_block(then);
                let ghost s3 = self.state();
                let mut end_jumps: Vec<usize> = Vec::new();
                let j = self.emit_jump();
                end_jumps.push(j);
                self.patch_jump(jf);
                let ghost s5 = self.state();
                proof {
                    assert(end_jumps@ == seq![j]);
                }
                let mut i: usize = 0;
                while i < elifs.len()
                    invariant
                        i <= elifs@.len(),
                        state_ok(self),
                        grows(old(self), self),
                        patches_ok(end_jumps@, self.chunk.instrs@.len() as int),
                        end_jumps@.len() >= 1,
                        end_jumps@[0] == j,
                        (self.state(), end_jumps@.drop_first()) == fe(s5, elifs@.take(i as int)),
                        decreases_to!(stmt => elifs@),
                    decreases elifs@.len() - i,
                {
                    proof {
                        assert(decreases_to!(elifs@ => elifs@[i as int]));
                    }
                    let ghost t0 = self.state();
                    let ghost js0 = end_jumps@.drop_first();
                    let r_ec = self.compile_expr(&elifs[i].0);
                    let ghost t1 = self.state();
                    let ejf = self.emit_jump_if_false(r_ec);
                    let ghost t2 = self.state();
                    self.compile_block(&elifs[i].1);
                    let ghost t3 = self.state();
                    let jj = self.emit_jump();
                    end_jumps.push(jj);
                    self.patch_jump(ejf);
                    proof {
                        assert(end_jumps@.drop_first() =~= js0.push(jj));
                        assert(elifs@.take(i + 1).drop_last() =~= elifs@.take(i as int));
                        assert(elifs@.take(i + 1).last() == elifs@[i as int]);
                        assert((t0, js0) == fe(s5, elifs@.take(i as int)));
                        assert((t1, r_ec) == cf(t0, elifs@[i as int].0));
                        assert(t3 == fb(t2, elifs@[i as int].1@));
                    }
                    i = i + 1;
                }
                assert(elifs@.take(elifs@.len() as int) =~= elifs@);
                let ghost s6 = self.state();
                match else_ {
                    Some(b) => self.compile_block(b),
                    None => {},
                }
                let ghost s7 = self.state();
                let end = self.pc();
                proof {
                    assert(end_jumps@ =~= seq![j] + end_jumps@.drop_first());
                    assert((s1, r_cond) == cf(a, *cond));
                    assert(s3 == fb(s2, then@));
                    assert((s6, end_jumps@.drop_first()) == fe(s5, elifs@));
                    assert(s7 == match *else_ { Some(e) => fb(s6, e@), None => s6 });
                }
                self.patch_all(&end_jumps, end);
            },
            _ => {
                proof { assert(false); }
            },
        }
    }

    /// A `while` loop: the condition, its exit jump, the body, the jump back.
    #[verifier::spinoff_prover]
    fn compile_while(&mut self, stmt: &Stmt)
        requires
            state_ok(old(self)),
            stmt.kind is While,
        ensures
            state_ok(final(self)),
            grows(old(self), final(self)),
            final(self).state() == fs(old(self).state(), *stmt),
        decreases stmt, 0nat,
    {
        let ghost a = self.state();
        match &stmt.kind {
            StmtKind::While { cond, body } => {
                let check_pc = self.pc();
                let r_cond = self.compile_expr(cond);
                let ghost s1 = self.state();
                let jf = self.emit_jump_if_false(r_cond);
                self.open_loop(check_pc, false);
                let ghost s3 = self.state();
                self.compile_block(body);
                let ghost sb = self.state();
                let ctx = self.close_loop();
                self.patch_all(&ctx.continue_patches, check_pc);
                let t = Self::addr(check_pc);
                self.emit(Instr::Jump { target: t });
                let ghost s4 = self.state();
                proof {
                    assert(sb == fb(s3, body@));
                    assert((s4, loop_v(ctx)) == fl(s3, body@, check_pc, true));
                    assert((s1, r_cond) == cf(a, *cond));
                }
                self.patch_jump(jf);
                let loop_end = self.pc();
                self.patch_all(&ctx.break_patches, loop_end);
            },
            _ => {
                proof { assert(false); }
            },
        }
    }

    /// A `for` loop over a list, range or string, with an optional step.
    #[verifier::spinoff_prover]
    fn compile_for(&mut self, stmt: &Stmt)
        requires
            state_ok(old(self)),
            stmt.kind is For,
        ensures
            state_ok(final(self)),
            grows(old(self), final(self)),
            final(self).state() == fs(old(self).state(), *stmt),
        decreases stmt, 0nat,
    {
        let ghost a = self.state();
        match &stmt.kind {
            StmtKind::For { var, iter, step, body, .. } => {
                let r_iter_val = self.compile_expr(iter);
                let ghost s1 = self.state();
                let r_step = match step {
                    Some(e) => {
                        let r = self.compile_expr(e);
                        assert((self.state(), r) == cf(s1, *e));
                        Some(r)
                    },
                    None => None,
                };
                let ghost s2 = self.state();
                let r_iter = self.fresh_reg();
                let r_var = self.fresh_reg();
                self.emit(Instr::ForIter { dst: r_iter, src: r_iter_val, step: r_step });
                let check_pc = self.pc();
                let done_patch = self.emit(Instr::IterNext { var: r_var, iter: r_iter, done: Addr(0) });
                let ghost s6 = self.state();
                let prev = self.locals.remove(var.as_str());
                self.locals.insert(var.clone(), r_var);
                proof {
                    assert(prev == binding(s6.locals, var@));
                }
                self.open_loop(check_pc, true);
                let ghost s8 = self.state();
                self.compile_block(body);
                let ghost sb = self.state();
                let ctx = self.close_loop();
                let increment_pc = self.pc();
                self.patch_all(&ctx.continue_patches, increment_pc);
                let t = Self::addr(check_pc);
                self.emit(Instr::Jump { target: t });
                let ghost s9 = self.state();
                proof {
                    assert(sb == fb(s8, body@));
                    assert((s9, loop_v(ctx)) == fl(s8, body@, check_pc, false));
                    assert((s1, r_iter_val) == cf(a, *iter));
                    assert((s2, r_step) == match *step { Some(e) => { let (x, r) = cf(s1, e); (x, Some(r)) }, None => (s1, None) });
                }
                let loop_end = self.pc();
                self.patch_to(done_patch, loop_end, true);
                self.patch_all(&ctx.break_patches, loop_end);
                let ghost s10 = self.state();
                self.locals.remove(var.as_str());
                match prev {
                    Some(p) => self.locals.insert(var.clone(), p),
                    None => {},
                }
                proof {
                    assert(self.state() == CState { locals: restore(s10.locals.remove(var@), var@, prev), ..s10 });
                }
            },
            _ => {
                proof { assert(false); }
            },
        }
    }

    /// A `for key, value in map` loop.
    #[verifier::spinoff_prover]
    fn compile_for_kv(&mut self, stmt: &Stmt)
        requires
            state_ok(old(self)),
            stmt.kind is ForKV,
        ensures
            state_ok(final(self)),
            grows(old(self), final(self)),
            final(self).state() == fs(old(self).state(), *stmt),
        decreases stmt, 0nat,
    {
        let ghost a = self.state();
        match &stmt.kind {
            StmtKind::ForKV { key, val, iter, body, .. } => {
                let r_map = self.compile_expr(iter);
                let ghost s1 = self.state();
                let r_loader = self.fresh_reg();
                let nk = self.add_name("__map_keys".to_owned());
                self.emit(Instr::LoadGlobal { dst: r_loader, name: nk });
                let r_keys = self.fresh_reg();
                let ghost s6 = self.state();
                let mut args: Vec<CallArgDesc> = Vec::new();
                args.push(CallArgDesc { name: None, reg: r_map });
                proof {
                    assert(args@ =~= seq![CallArgDesc { name: None, reg: r_map }]);
                }
                self.emit(Instr::Call { dst: Some(r_keys), callee: r_loader, args });
                let ghost s2 = self.state();
                let r_iter = self.fresh_reg();
                let r_key_var = self.fresh_reg();
                let r_val_var = self.fresh_reg();
                self.emit(Instr::ForIter { dst: r_iter, src: r_keys, step: None });
                let check_pc = self.pc();
                let done_patch = self.emit(Instr::IterNext { var: r_key_var, iter: r_iter, done: Addr(0) });
                self.emit(Instr::LoadIndex { dst: r_val_var, obj: r_map, idx: r_key_var });
                let ghost s12 = self.state();
                let prev_k = self.locals.remove(key.as_str());
                let prev_v = self.locals.remove(val.as_str());
                self.locals.insert(key.clone(), r_key_var);
                self.locals.insert(val.clone(), r_val_var);
                proof {
                    assert(prev_k == binding(s12.locals, key@));
                    assert(prev_v == binding(s12.locals.remove(key@), val@));
                }
                self.open_loop(check_pc, true);
                let ghost sb0 = self.state();
                self.compile_block(body);
                let ghost sb = self.state();
                let ctx = self.close_loop();
                let inc_pc = self.pc();
                self.patch_all(&ctx.continue_patches, inc_pc);
                let t = Self::addr(check_pc);
                self.emit(Instr::Jump { target: t });
                let ghost s13 = self.state();
                proof {
                    assert(sb == fb(sb0, body@));
                    assert((s13, loop_v(ctx)) == fl(sb0, body@, check_pc, false));
                    assert((s1, r_map) == cf(a, *iter));
                }
                let loop_end = self.pc();
                self.patch_to(done_patch, loop_end, true);
                self.patch_all(&ctx.break_patches, loop_end);
                self.locals.remove(key.as_str());
                self.locals.remove(val.as_str());
                match prev_k {
                    Some(p) => self.locals.insert(key.clone(), p),
                    None => {},
                }
                match prev_v {
                    Some(p) => self.locals.insert(val.clone(), p),
                    None => {},
                }
            },
            _ => {
                proof { assert(false); }
            },
        }
    }

    /// `load alias from "source"`: the module loaded by the runtime's loader, stored under its alias.
    #[verifier::spinoff_prover]
    fn compile_load(&mut self, stmt: &Stmt)
        requires
            state_ok(old(self)),
            stmt.kind is Load,
        ensures
            state_ok(final(self)),
            grows(old(self), final(self)),
            final(self).state() == fs(old(self).state(), *stmt),
        decreases stmt, 0nat,
    {
        let ghost a = self.state();
        match &stmt.kind {
            StmtKind::Load { alias, source, .. } => {
                let r_fn = self.fresh_reg();
                let ni = self.add_name("__load_module".to_owned());
                self.emit(Instr::LoadGlobal { dst: r_fn, name: ni });
                let r_src = self.fresh_reg();
                let ci = self.add_const(Value::Str(source.clone()));
                self.emit(Instr::LoadConst { dst: r_src, idx: ci });
                let r_mod = self.fresh_reg();
                let ghost s6b = self.state();
                let mut args: Vec<CallArgDesc> = Vec::new();
                args.push(CallArgDesc { name: None, reg: r_src });
                proof {
                    assert(args@ =~= seq![CallArgDesc { name: None, reg: r_src }]);
                }
                self.emit(Instr::Call { dst: Some(r_mod), callee: r_fn, args });
                let ghost s7 = self.state();
                self.store_name(alias.as_str(), r_mod);
                assert(s7 == s_emit(s6b, IV::Call { dst: Some(r_mod), callee: r_fn, args: seq![CallArgDesc { name: None, reg: r_src }] }));
            },
            _ => {
                proof { assert(false); }
            },
        }
    }

    /// A function definition: its body compiled into a function constant, stored under its name.
    #[verifier::spinoff_prover]
    #[verifier::rlimit(100)]
    fn compile_fn_def(&mut self, stmt: &Stmt)
        requires
            state_ok(old(self)),
            stmt.kind is FnDef,
        ensures
            state_ok(final(self)),
            grows(old(self), final(self)),
            final(self).state() == fs(old(self).state(), *stmt),
        decreases stmt, 0nat,
    {
        let ghost a = self.state();
        match &stmt.kind {
            StmtKind::FnDef(f) => {
                let mut sub = Compiler::new_fn(f.name.clone());
                sub.bind_params(&f.params);
                let ghost s0 = sub.state();
                sub.compile_block(&f.body);
                let ghost s1 = sub.state();
                if !sub.is_last_return() {
                    sub.emit(Instr::Return { src: None });
                }
                let ghost sf = sub.state();
                if sub.overflow {
                    self.overflow = true;
                }
                proof {
                lemma_chunk_of(sub);
            }
            let v = Value::Function(Box::new(sub.chunk));
                proof {
                    assert(s1 == fb(s0, f.body@));
                    assert(sf == s_finish(s1));
                    assert(sf == fn_state(f.name@, f.params@, f.body@));
                    assert(cv(v) == CV::Function(chunk_of(sf)));
                    assert(self.state() == (CState { overflow: a.overflow || sf.overflow, ..a }));
                }
                let ghost a1 = self.state();
                let r = self.load_const(v);
                proof {
                    assert((self.state(), r) == s_load_const(a1, CV::Function(chunk_of(sf))));
                    assert((self.state(), r) == s_fn_const(a, f.name@, f.params@, f.body@));
                }
                self.store_name(f.name.as_str(), r);
            },
            _ => {
                proof { assert(false); }
            },
        }
    }

    /// A class definition: the class constant, stored under its name.
    #[verifier::spinoff_prover]
    fn compile_cls_def(&mut self, stmt: &Stmt)
        requires
            state_ok(old(self)),
            stmt.kind is ClsDef,
        ensures
            state_ok(final(self)),
            grows(old(self), final(self)),
            final(self).state() == fs(old(self).state(), *stmt),
        decreases stmt, 0nat,
    {
        let ghost a = self.state();
        match &stmt.kind {
            StmtKind::ClsDef(c) => {
                let mut fields: Vec<String> = Vec::new();
                let mut i: usize = 0;
                while i < c.fields.len()
                    invariant
                        i <= c.fields@.len(),
                        names_v(fields@) == param_names_v(c.fields@.take(i as int)),
                    decreases c.fields@.len() - i,
                {
                    let ghost prev = fields@;
                    fields.push(c.fields[i].name.clone());
                    proof {
                        assert(fields@ =~= prev.push(fields@.last()));
                        assert(fields@.last()@ == c.fields@[i as int].name@);
                        assert(c.fields@.take(i + 1) =~= c.fields@.take(i as int).push(c.fields@[i as int]));
                        assert(names_v(fields@) =~= names_v(prev).push(c.fields@[i as int].name@));
                        assert(param_names_v(c.fields@.take(i + 1)) =~= param_names_v(c.fields@.take(i as int)).push(c.fields@[i as int].name@));
                        assert(names_v(fields@) =~= param_names_v(c.fields@.take(i + 1)));
                    }
                    i = i + 1;
                }
                assert(c.fields@.take(c.fields@.len() as int) =~= c.fields@);
                let v = Value::Class { name: c.name.clone(), fields };
                let r = self.load_const(v);
                self.store_name(c.name.as_str(), r);
            },
            _ => {
                proof { assert(false); }
            },
        }
    }

    /// The jump target for instruction position `pc`.
    fn addr(pc: usize) -> (r: Addr)
        ensures
            r.0 as int <= pc,
            pc <= u32::MAX ==> r.0 == pc,
            r == addr_of(pc),
    {
        let t32: u32 = #[verifier::truncate] (pc as u32);
        assert(t32 <= pc && (pc <= 0xffff_ffffusize ==> t32 == pc)) by (bit_vector)
            requires
                t32 == #[verifier::truncate] (pc as u32),
        ;
        Addr(t32)
    }

    /// The chunk the compiler holds.
    pub closed spec fn held_chunk(&self) -> FunctionChunk {
        self.chunk
    }

    /// The chunk the compiler holds, handed over.
    pub fn into_chunk(self) -> (r: FunctionChunk)
        ensures
            r == self.held_chunk(),
    {
        self.chunk
    }

    /// Compiles a program: afterwards the compiler's chunk holds its code,
    /// closed by a `Return`, and is handed back; `None` when some function
    /// needs more registers than a frame has.
    pub fn compile_stmts(&mut self, stmts: &[Stmt]) -> (r: Option<&FunctionChunk>)
        requires
            old(self).wf(),
        ensures
            final(self).state() == fprogram(old(self).state(), stmts@),
            (forall|i: int| 0 <= i < stmts@.len() ==> top_level_ok(#[trigger] stmts@[i])) ==> final(self).state().exports
                == old(self).state().exports + exported_names(stmts@),
            chunk_v(final(self).held_chunk()) == chunk_of(final(self).state()),
            final(self).unit_name() == old(self).unit_name(),
            r is None <==> final(self).state().overflow,
            r is None ==> final(self).overflowed(),
            match r {
                Some(c) => *c == final(self).held_chunk() && chunk_wf(*c) && c.num_registers <= 256,
                None => true,
            },
    {
        let mut i: usize = 0;
        while i < stmts.len()
            invariant
                i <= stmts@.len(),
                state_ok(self),
                grows(old(self), self),
                self.state() == fb(old(self).state(), stmts@.take(i as int)),
            decreases stmts@.len() - i,
        {
            let ghost s0 = self.state();
            self.compile_stmt(&stmts[i]);
            proof {
                assert(stmts@.take(i + 1).drop_last() =~= stmts@.take(i as int));
                assert(stmts@.take(i + 1).last() == stmts@[i as int]);
            }
            i = i + 1;
        }
        assert(stmts@.take(stmts@.len() as int) =~= stmts@);
        proof {
            if forall|i: int| 0 <= i < stmts@.len() ==> top_level_ok(#[trigger] stmts@[i]) {
                law_block_exports(old(self).state(), stmts@);
            }
        }
        if !self.is_last_return() {
            self.emit(Instr::Return { src: None });
        }
        proof {
            lemma_chunk_of(*self);
        }
        if self.overflow {
            return None;
        }
        Some(&self.chunk)
    }
}

} // verus!
