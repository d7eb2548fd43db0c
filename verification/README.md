# nimble

The front end and runtime support of Nimble, an indentation-sensitive
scripting language, written in Verus and proved against its contracts.

## Layout

- `src/lexer`: source text to tokens (`Indent`/`Dedent` from indentation),
  specified by a state machine over the characters (`lexer/spec.rs`);
  `lexer/balance.rs` proves that indentation tokens pair up, `lexer/spans.rs`
  that spans lie in the source in order and name their identifiers.
- `src/parser`: tokens to syntax trees. `parser/spec.rs` gives the meaning of
  every parsing method as a spec function over the token sequence; the methods
  in `parser/parser.rs` and `parser/grammar.rs` are proved to follow it exactly,
  error recovery included.
- `src/types`: the static types and the type checker, with its scoping laws.
- `src/compiler`: syntax trees to register bytecode. `compiler/meaning.rs`
  states, construct by construct, the state the compiler is in after
  compiling (code, constant and name pools, registers, locals, open loops);
  every compiling method is proved to follow it exactly, and every emitted
  chunk is proved well formed (registers, constants, names and jump targets
  in range, ending in `Return`).
- `src/vm`: values, their printed form and deep copies, the bump-allocated
  nursery, and the register machine: `VM::step` runs one instruction of the
  innermost frame and is proved to do exactly what `spec_step` says.
- `src/jit`, `src/ir`, `src/profiler.rs`, `src/optimizer`: the native-code
  plan for integer arithmetic, the SSA form, execution profiles and the
  peephole pass.
- `src/modules`: the module registry and how a module's source becomes a chunk.
- `app/`: the `nimble` command (`run`, `check`, `repl`, `version`), the loop
  that drives the machine step by step, file access, diagnostics rendering
  and the Cranelift back end.
