use nimble::compiler::bytecode::{FunctionChunk, Instr, Reg};
use nimble::compiler::register::RegisterAllocator;
use nimble::compiler::Compiler;
use nimble::ir::{IrVal, SSA};
use nimble::jit::cache::JitCache;
use nimble::jit::plan::{translate_plan, NativeOp};
use nimble::lexer::Lexer;
use nimble::modules::registry::{Module, ModuleRegistry};
use nimble::modules::resolver::ModuleResolver;
use nimble::optimizer::peephole::optimize_chunk;
use nimble::parser::Parser;
use nimble::profiler::{FunctionProfile, TypeFeedback, ValueType, HOT_THRESHOLD};
use nimble::text::{i64_text, u64_text, usize_text};
use nimble::vm::gc::{BumpAllocator, Heap, MINOR_THRESHOLD, NURSERY_SIZE};
use nimble::vm::value::Value;
use nimble::vm::vm::{Step, VM};

fn compile(src: &str) -> FunctionChunk {
    let tokens = Lexer::new(src).tokenize().expect("source should lex");
    let stmts = Parser::new(tokens).parse().expect("source should parse");
    let mut compiler = Compiler::new("main".to_string());
    compiler.compile_stmts(&stmts).expect("module should fit in the register file");
    compiler.into_chunk()
}

#[test]
fn module_assignment_compiles_to_global_store() {
    let chunk = compile("x = 1\n");
    assert_eq!(chunk.name, "main");
    assert_eq!(chunk.names, vec!["x".to_string()]);
    assert!(matches!(chunk.constants[0], Value::Int(1)));
    assert!(chunk.instrs.iter().any(|i| matches!(i, Instr::StoreGlobal { .. })));
    assert!(matches!(chunk.instrs.last(), Some(Instr::Return { src: None })));
}

#[test]
fn functions_become_constants() {
    let chunk = compile("fn add(a, b):\n    return a + b\nout(add(1, 2))\n");
    let f = chunk
        .constants
        .iter()
        .find_map(|c| match c {
            Value::Function(f) => Some(f),
            _ => None,
        })
        .expect("the function should be a constant");
    assert_eq!(f.name, "add");
    assert_eq!(f.param_names, vec!["a".to_string(), "b".to_string()]);
    assert!(f.num_registers >= 2);
}

#[test]
fn loops_and_conditions_compile() {
    let chunk = compile("i = 0\nwhile i < 3:\n    i += 1\n    if i == 2:\n        break\n");
    assert!(chunk.instrs.iter().any(|i| matches!(i, Instr::JumpIfFalse { .. })));
    assert!(chunk.instrs.iter().any(|i| matches!(i, Instr::Jump { .. })));
}

#[test]
fn chunk_building_blocks() {
    let mut chunk = FunctionChunk::new("f".to_string());
    assert_eq!(chunk.add_const(Value::Int(7)).0, 0);
    assert_eq!(chunk.add_const(Value::Null).0, 1);
    assert_eq!(chunk.add_name("a".to_string()).0, 0);
    assert_eq!(chunk.add_name("b".to_string()).0, 1);
    assert_eq!(chunk.add_name("a".to_string()).0, 0);
    assert_eq!(chunk.names.len(), 2);
    assert_eq!(chunk.emit(Instr::Return { src: None }), 0);
    assert_eq!(chunk.emit(Instr::Return { src: Some(Reg(1)) }), 1);
}

#[test]
fn register_allocation_wraps() {
    let mut a = RegisterAllocator::new();
    assert_eq!(a.allocate().0, 0);
    assert_eq!(a.allocate().0, 1);
    for _ in 2..256 {
        a.allocate();
    }
    assert_eq!(a.allocate().0, 0);
}

#[test]
fn peephole_pass_keeps_instructions() {
    let mut chunk = compile("x = 1\ny = x\n");
    let before = format!("{:?}", chunk.instrs);
    optimize_chunk(&mut chunk);
    assert_eq!(format!("{:?}", chunk.instrs), before);
}

#[test]
fn native_plan_of_integer_arithmetic() {
    let mut chunk = FunctionChunk::new("f".to_string());
    chunk.num_registers = 3;
    chunk.emit(Instr::AddInt { dst: Reg(2), a: Reg(0), b: Reg(1) });
    chunk.emit(Instr::Move { dst: Reg(0), src: Reg(2) });
    chunk.emit(Instr::MulInt { dst: Reg(2), a: Reg(2), b: Reg(2) });
    chunk.emit(Instr::Return { src: Some(Reg(2)) });
    let (vars, ops) = translate_plan(&chunk);
    assert_eq!(vars, 256);
    assert_eq!(
        ops,
        vec![
            NativeOp::Add { dst: 2, a: 0, b: 1 },
            NativeOp::Mul { dst: 2, a: 2, b: 2 },
            NativeOp::Return(Some(2)),
        ]
    );
    chunk.num_registers = 300;
    assert_eq!(translate_plan(&chunk).0, 300);
}

#[test]
fn jit_cache_get_after_insert() {
    let mut cache = JitCache::new();
    assert_eq!(cache.get("f"), None);
    cache.insert("f".to_string(), 0x1000);
    cache.insert("g".to_string(), 0x2000);
    assert_eq!(cache.get("f"), Some(0x1000));
    cache.insert("f".to_string(), 0x3000);
    assert_eq!(cache.get("f"), Some(0x3000));
    assert_eq!(cache.get("g"), Some(0x2000));
}

#[test]
fn registry_get_after_register() {
    let mut reg = ModuleRegistry::new();
    assert!(reg.get("m").is_none());
    reg.register("m".to_string(), Module { name: "m".to_string(), chunk: FunctionChunk::new("m".to_string()) });
    assert_eq!(reg.get("m").map(|m| m.name.clone()), Some("m".to_string()));
    reg.register("m".to_string(), Module { name: "m2".to_string(), chunk: FunctionChunk::new("m2".to_string()) });
    assert_eq!(reg.get("m").map(|m| m.name.clone()), Some("m2".to_string()));
}

#[test]
fn bump_allocation() {
    let mut b = BumpAllocator::new(16);
    assert_eq!(b.allocate(8), Some(0));
    assert_eq!(b.allocate(4), Some(8));
    assert_eq!(b.allocate(5), None);
    assert_eq!(b.cursor, 12);
    assert_eq!(b.allocate(4), Some(12));
    assert_eq!(b.allocate(1), None);
    b.reset();
    assert_eq!(b.allocate(16), Some(0));
}

#[test]
fn heap_nursery() {
    let mut h = Heap::new();
    assert_eq!(h.nursery.end, NURSERY_SIZE);
    assert_eq!(h.threshold, MINOR_THRESHOLD);
    assert_eq!(h.nursery.allocate(100), Some(0));
    h.collect_minor();
    assert_eq!(h.nursery.cursor, 0);
}

#[test]
fn type_feedback_records_distinct_types() {
    let mut fb = TypeFeedback::new();
    fb.record(ValueType::Int);
    fb.record(ValueType::Int);
    fb.record(ValueType::Float);
    assert_eq!(fb.count, 3);
    assert_eq!(fb.seen_types[0], ValueType::Int);
    assert_eq!(fb.seen_types[2], ValueType::Float);
    assert_eq!(fb.seen_types[1], ValueType::Unknown);
}

#[test]
fn function_becomes_hot_at_threshold() {
    let mut p = FunctionProfile::new(3);
    assert_eq!(p.feedback.len(), 3);
    for _ in 0..HOT_THRESHOLD - 1 {
        p.record_invocation();
    }
    assert!(!p.is_hot);
    p.record_invocation();
    assert!(p.is_hot);
    p.record_invocation();
    assert!(p.is_hot);
}

#[test]
fn ssa_values_are_fresh() {
    let mut ssa = SSA::new();
    assert_eq!(ssa.next_val(), IrVal(0));
    assert_eq!(ssa.next_val(), IrVal(1));
}

#[test]
fn value_text() {
    assert_eq!(Value::Null.stringify(), "null");
    assert_eq!(Value::Int(-42).stringify(), "-42");
    assert_eq!(Value::Int(i64::MIN).stringify(), "-9223372036854775808");
    assert_eq!(Value::Bool(true).stringify(), "true");
    assert_eq!(Value::Str("hi".to_string()).stringify(), "hi");
    let list = Value::List(vec![Value::Int(1), Value::Int(2), Value::Int(3)]);
    assert_eq!(list.stringify(), "[1, 2, 3]");
    assert_eq!(Value::List(vec![]).stringify(), "[]");
    let map = Value::Dict(vec![("a".to_string(), Value::Int(1)), ("b".to_string(), Value::Null)]);
    assert_eq!(map.stringify(), "{a: 1, b: null}");
    assert_eq!(Value::Range { start: 0, end: 10 }.stringify(), "range(0, 10)");
    assert_eq!(Value::Error("boom".to_string()).stringify(), "error(boom)");
}

#[test]
fn value_truth_and_kind() {
    assert!(!Value::Null.is_truthy());
    assert!(!Value::Int(0).is_truthy());
    assert!(Value::Int(3).is_truthy());
    assert!(!Value::Float("0.0".to_string()).is_truthy());
    assert!(Value::Float("0.5".to_string()).is_truthy());
    assert!(!Value::Str(String::new()).is_truthy());
    assert!(Value::List(vec![]).is_truthy());
    assert!(Value::Null.is_null());
    assert!(!Value::Int(0).is_null());
    assert_eq!(Value::Dict(vec![]).kind_name(), "map");
    assert_eq!(Value::Range { start: 1, end: 2 }.kind_name(), "range");
    assert_eq!(Value::Int(1).kind_name(), "int");
}

#[test]
fn decimal_text() {
    assert_eq!(usize_text(0), "0");
    assert_eq!(usize_text(1234), "1234");
    assert_eq!(u64_text(u64::MAX), "18446744073709551615");
    assert_eq!(i64_text(-7), "-7");
}

#[test]
fn module_compilation() {
    let r = ModuleResolver::with_stdlib("/lib/nimble".to_string());
    assert_eq!(r.stdlib_path, "/lib/nimble");
    let chunk = r.compile_module("export fn answer():\n    return 42\n", "helper").unwrap();
    assert_eq!(chunk.name, "helper");
    match r.compile_module("x = $\n", "bad") {
        Err(err) => assert_eq!(err, "Lexer error in module 'bad': invalid token `$`"),
        Ok(_) => panic!("a lexical error was expected"),
    }
    match r.compile_module("1 = 2\n", "bad") {
        Err(err) => assert_eq!(err, "Parser error in module 'bad': invalid assignment target"),
        Ok(_) => panic!("a parse error was expected"),
    }
}

#[test]
fn module_lookup_rules() {
    assert!(ModuleResolver::is_relative("./helper"));
    assert!(!ModuleResolver::is_relative("math"));
    assert!(!ModuleResolver::is_relative(""));
    assert_eq!(
        ModuleResolver::not_found("math", "/lib/math/mod.nmb"),
        "Module 'math' not found (looked in /lib/math/mod.nmb)"
    );
}

#[test]
fn expressions_leave_parameters_untouched() {
    let chunk = compile("fn f(a, b):\n    return a * b + a - (b * 2)\n");
    let f = chunk
        .constants
        .iter()
        .find_map(|c| match c {
            Value::Function(f) => Some(f),
            _ => None,
        })
        .expect("the function should be a constant");
    for ins in &f.instrs {
        match ins {
            Instr::LoadConst { dst, .. }
            | Instr::AddInt { dst, .. }
            | Instr::SubInt { dst, .. }
            | Instr::MulInt { dst, .. }
            | Instr::Move { dst, .. } => assert!(dst.0 >= 2, "parameter register overwritten: {:?}", ins),
            _ => {}
        }
    }
    assert!(matches!(f.instrs.last(), Some(Instr::Return { src: Some(_) })));
}

#[test]
fn loop_variable_is_scoped_to_the_loop() {
    let chunk = compile("fn g(i):\n    for i in 0..3:\n        out(i)\n    return i\n");
    let g = chunk
        .constants
        .iter()
        .find_map(|c| match c {
            Value::Function(f) => Some(f),
            _ => None,
        })
        .unwrap();
    assert!(matches!(g.instrs.last(), Some(Instr::Return { src: Some(Reg(0)) })));
}

#[test]
fn while_loop_jumps_back_to_its_condition() {
    let chunk = compile("i = 0\nwhile i < 3:\n    i += 1\n");
    let n = chunk.instrs.len();
    assert!(matches!(chunk.instrs[n - 1], Instr::Return { src: None }));
    assert!(matches!(chunk.instrs[n - 2], Instr::Jump { target } if target.0 == 2));
    assert!(matches!(chunk.instrs[2], Instr::LoadGlobal { .. }));
}

#[test]
fn literal_goes_through_the_constant_pool() {
    let chunk = compile("x = \"hi\"\n");
    assert!(matches!(&chunk.constants[0], Value::Str(s) if s == "hi"));
    assert!(matches!(chunk.instrs[0], Instr::LoadConst { idx, .. } if idx.0 == 0));
    assert!(matches!(chunk.instrs[1], Instr::StoreGlobal { name, .. } if chunk.names[name.0 as usize] == "x"));
}

#[test]
fn short_circuit_and_compiles_to_a_conditional_jump() {
    let chunk = compile("true and false\n");
    let text = format!("{:?}", chunk.instrs);
    assert_eq!(
        text,
        "[LoadConst { dst: Reg(1), idx: ConstIdx(0) }, Move { dst: Reg(0), src: Reg(1) }, \
JumpIfFalse { cond: Reg(0), target: Addr(5) }, LoadConst { dst: Reg(2), idx: ConstIdx(1) }, \
Move { dst: Reg(0), src: Reg(2) }, Return { src: None }]"
    );
    assert!(matches!(chunk.constants[0], Value::Bool(true)));
    assert!(matches!(chunk.constants[1], Value::Bool(false)));
    assert_eq!(chunk.num_registers, 3);
}

#[test]
fn global_assignment_code() {
    let chunk = compile("x = 1\n");
    assert_eq!(
        format!("{:?}", chunk.instrs),
        "[LoadConst { dst: Reg(0), idx: ConstIdx(0) }, StoreGlobal { name: NameIdx(0), src: Reg(0) }, Return { src: None }]"
    );
    assert_eq!(chunk.names, vec!["x".to_string()]);
    assert_eq!(chunk.num_registers, 1);
    assert!(chunk.exports.is_empty());
}

#[test]
fn while_loop_with_break_code() {
    let chunk = compile("while x:\n    break\n");
    assert_eq!(
        format!("{:?}", chunk.instrs),
        "[LoadGlobal { dst: Reg(0), name: NameIdx(0) }, JumpIfFalse { cond: Reg(0), target: Addr(4) }, \
Jump { target: Addr(4) }, Jump { target: Addr(0) }, Return { src: None }]"
    );
    assert_eq!(chunk.names, vec!["x".to_string()]);
}

#[test]
fn subtraction_keeps_operand_order() {
    let chunk = compile("a - b\n");
    assert!(matches!(chunk.instrs[2], Instr::SubInt { dst: Reg(2), a: Reg(0), b: Reg(1) }));
}

#[test]
fn empty_program_is_a_single_return() {
    let chunk = compile("");
    assert_eq!(chunk.name, "main");
    assert!(matches!(chunk.instrs[..], [Instr::Return { src: None }]));
    assert!(chunk.constants.is_empty());
    assert!(chunk.names.is_empty());
    assert!(chunk.exports.is_empty());
}

#[test]
fn exported_definitions_are_listed() {
    let chunk = compile("export fn answer():\n    return 42\nexport x = 1\ny = 2\n");
    assert_eq!(chunk.exports, vec!["answer".to_string(), "x".to_string()]);
}

#[test]
fn compiler_keeps_the_chunk_it_hands_back() {
    let tokens = Lexer::new("x = 1\n").tokenize().unwrap();
    let stmts = Parser::new(tokens).parse().unwrap();
    let mut compiler = Compiler::new("m".to_string());
    let n = compiler.compile_stmts(&stmts).map(|c| c.instrs.len());
    assert_eq!(n, Some(3));
    assert_eq!(compiler.chunk.instrs.len(), 3);
}

fn run_source(src: &str) -> (VM, Result<Value, String>) {
    let mut vm = VM::new();
    vm.push_chunk(compile(src));
    for _ in 0..10_000 {
        match vm.step() {
            Ok(Step::Continue) => {}
            Ok(Step::Halt(v)) => return (vm, Ok(v)),
            Ok(Step::FloatAdd { dst, a, b }) => {
                let sum: f64 = a.parse::<f64>().unwrap() + b.parse::<f64>().unwrap();
                vm.set_register(dst, Value::Float(format!("{}", sum)));
            }
            Err(e) => return (vm, Err(e)),
        }
    }
    panic!("program did not stop");
}

fn global(vm: &VM, name: &str) -> Option<String> {
    vm.global_entries().into_iter().find(|(n, _)| n == name).map(|(_, v)| v.stringify())
}

#[test]
fn machine_runs_integer_arithmetic() {
    let (vm, r) = run_source("x = 1 + 2\ny = x * 4\nz = y - 20\n");
    assert!(matches!(r, Ok(Value::Null)));
    assert_eq!(global(&vm, "x"), Some("3".to_string()));
    assert_eq!(global(&vm, "y"), Some("12".to_string()));
    assert_eq!(global(&vm, "z"), Some("-8".to_string()));
}

#[test]
fn machine_division() {
    let (vm, _) = run_source("x = 0 - 7\ny = x / 2\n");
    assert_eq!(global(&vm, "y"), Some("-3".to_string()));
    let (_, r) = run_source("x = 1 / 0\n");
    assert_eq!(r.err().unwrap(), "Div by zero");
}

#[test]
fn machine_reassigns_globals_in_place() {
    let (vm, _) = run_source("x = 1\nx = x + 1\n");
    assert_eq!(vm.global_entries().len(), 1);
    assert_eq!(global(&vm, "x"), Some("2".to_string()));
}

#[test]
fn machine_reads_unbound_globals_as_null() {
    let (vm, _) = run_source("y = z\n");
    assert_eq!(global(&vm, "y"), Some("null".to_string()));
}

#[test]
fn machine_adds_floats_through_the_caller() {
    let (vm, _) = run_source("x = 1.5 + 2.25\n");
    assert_eq!(global(&vm, "x"), Some("3.75".to_string()));
}

#[test]
fn machine_reports_invalid_operands_and_missing_opcodes() {
    let (_, r) = run_source("x = \"a\" - 1\n");
    assert_eq!(r.err().unwrap(), "Invalid operands for Sub");
    let (_, r) = run_source("x = 1 < 2\n");
    assert_eq!(r.err().unwrap(), "Unimplemented opcode: CmpLt");
    let (_, r) = run_source("out(1)\n");
    assert_eq!(r.err().unwrap(), "Unimplemented opcode: Call");
}

#[test]
fn machine_without_frames() {
    let mut vm = VM::new();
    assert_eq!(vm.step().err(), Some("No call frame".to_string()));
    assert!(vm.global_entries().is_empty());
    assert_eq!(vm.load_module("io").err(), Some("module loading is not implemented yet".to_string()));
}

#[test]
fn machine_conditional_jump_on_truthiness() {
    let (vm, _) = run_source("x = 0\nif x:\n    y = 1\nelse:\n    y = 2\n");
    assert_eq!(global(&vm, "y"), Some("2".to_string()));
}
