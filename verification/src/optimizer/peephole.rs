//! Peephole pass over the instructions of a chunk.
//!
//! No rewrite pattern is enabled yet: the pass rebuilds the instruction
//! stream in order and leaves it as it was.

use vstd::prelude::*;
use crate::compiler::bytecode::{FunctionChunk, Instr, chunk_wf};

verus! {

/// Runs the peephole pass on `chunk`; the instructions come out unchanged.
pub fn optimize_chunk(chunk: &mut FunctionChunk)
    ensures
        final(chunk).instrs@ == old(chunk).instrs@,
        final(chunk).constants@ == old(chunk).constants@,
        final(chunk).names@ == old(chunk).names@,
        final(chunk).num_registers == old(chunk).num_registers,
        final(chunk).name == old(chunk).name,
        final(chunk).param_names@ == old(chunk).param_names@,
        final(chunk).exports@ == old(chunk).exports@,
        chunk_wf(*old(chunk)) ==> chunk_wf(*final(chunk)),
{
    let mut taken: Vec<Instr> = Vec::new();
    core::mem::swap(&mut taken, &mut chunk.instrs);
    let ghost before = taken@;
    let mut out: Vec<Instr> = Vec::with_capacity(taken.len());
    for ins in it: taken
        invariant
            it.seq() == before,
            out@ == before.take(it.index() as int),
    {
        out.push(ins);
    }
    assert(out@ =~= before);
    chunk.instrs = out;
}

} // verus!
