//! Where modules are looked up, and how a module's source becomes a chunk.
//! Finding and reading the files is the front end's part.

use vstd::prelude::*;
use crate::compiler::bytecode::{FunctionChunk, chunk_wf};
use crate::compiler::compiler::Compiler;
use crate::compiler::meaning::{chunk_of, chunk_v, fprogram, s_new_module};
use crate::parser::ast::{Stmt, view_stmts};
use crate::error::{LexError, PErr, lex_message};
use crate::lexer::lexer::{Lexer, spec_tokenize, view_toks};
use crate::lexer::spec::TokSpan;
use crate::parser::ast::SStmt;
use crate::parser::parser::{Parser, TEXT_LIMIT};
use crate::parser::spec::{sp_partial, with_eof};

verus! {

/// The statements and the errors of a parse of `toks` from the start.
pub open spec fn parse_tokens(toks: Seq<TokSpan>) -> (Seq<SStmt>, Seq<PErr>) {
    sp_partial(with_eof(toks), TEXT_LIMIT as nat, 0, seq![], seq![])
}

/// `Lexer error in module '<name>': <message>`.
pub open spec fn lex_failure(name: Seq<char>, e: LexError) -> Seq<char> {
    "Lexer error in module '"@ + name + "': "@ + lex_message(e)
}

/// `Parser error in module '<name>': <message>`.
pub open spec fn parse_failure(name: Seq<char>, e: PErr) -> Seq<char> {
    "Parser error in module '"@ + name + "': "@ + e.message
}

/// `Compiler error in module '<name>': too many registers`.
pub open spec fn compile_failure(name: Seq<char>) -> Seq<char> {
    "Compiler error in module '"@ + name + "': too many registers"@
}

/// Whether a module source names a file relative to the importing one
/// (it starts with `.`), rather than a module of the standard library.
pub open spec fn is_relative(source: Seq<char>) -> bool {
    source.len() > 0 && source[0] == '.'
}

/// `Module '<source>' not found (looked in <path>)`.
pub open spec fn not_found_text(source: Seq<char>, path: Seq<char>) -> Seq<char> {
    "Module '"@ + source + "' not found (looked in "@ + path + ")"@
}

pub struct ModuleResolver {
    pub stdlib_path: String,
}

fn message(head: &str, name: &str, tail: &str) -> (r: String)
    ensures
        r@ == head@ + name@ + tail@,
{
    let mut m = head.to_owned();
    m.append(name);
    m.append(tail);
    m
}

impl ModuleResolver {
    /// A resolver whose standard library lives in directory `stdlib_path`.
    pub fn with_stdlib(stdlib_path: String) -> (r: ModuleResolver)
        ensures
            r.stdlib_path == stdlib_path,
    {
        ModuleResolver { stdlib_path }
    }

    /// Whether `source` names a file relative to the importing one.
    pub fn is_relative(source: &str) -> (r: bool)
        ensures
            r == is_relative(source@),
    {
        let cs = crate::lexer::chars::str_chars(source);
        cs.len() > 0 && cs[0] == '.'
    }

    /// The error for a module that is not where it was looked for.
    pub fn not_found(source: &str, path: &str) -> (r: String)
        ensures
            r@ == not_found_text(source@, path@),
    {
        let mut m = message("Module '", source, "' not found (looked in ");
        m.append(path);
        m.append(")");
        m
    }

    /// Lexes, parses and compiles the source of module `name`.
    ///
    /// Fails with the first lexical error, else with the first parse error,
    /// else when a frame of the module needs more registers than a chunk has.
    pub fn compile_module(&self, content: &str, name: &str) -> (r: Result<FunctionChunk, String>)
        requires
            content@.len() <= usize::MAX / 4,
        ensures
            match spec_tokenize(content@) {
                Err(le) => r matches Err(m) && m@ == lex_failure(name@, le),
                Ok(toks) => {
                    let (_, errs) = parse_tokens(toks);
                    if errs.len() > 0 {
                        r matches Err(m) && m@ == parse_failure(name@, errs[0])
                    } else {
                        exists|stmts: Seq<Stmt>| #![trigger fprogram(s_new_module(name@), stmts)] {
                            let done = fprogram(s_new_module(name@), stmts);
                            &&& view_stmts(stmts) == parse_tokens(toks).0
                            &&& match r {
                                Ok(c) => !done.overflow && chunk_v(c) == chunk_of(done) && chunk_wf(c) && c.num_registers <= 256,
                                Err(m) => done.overflow && m@ == compile_failure(name@),
                            }
                        }
                    }
                },
            },
    {
        let mut lexer = Lexer::new(content);
        let tokens = match lexer.tokenize() {
            Ok(t) => t,
            Err(e) => {
                let mut m = message("Lexer error in module '", name, "': ");
                m.append(e.message().as_str());
                return Err(m);
            },
        };
        let mut parser = Parser::new(tokens);
        let stmts = match parser.parse() {
            Ok(s) => s,
            Err(errs) => {
                let mut m = message("Parser error in module '", name, "': ");
                m.append(errs[0].message.as_str());
                return Err(m);
            },
        };
        let ghost sv = stmts@;
        let mut compiler = Compiler::new(name.to_owned());
        let ok = compiler.compile_stmts(stmts.as_slice()).is_some();
        assert(compiler.state() == fprogram(s_new_module(name@), sv));
        if ok {
            Ok(compiler.into_chunk())
        } else {
            Err(message("Compiler error in module '", name, "': too many registers"))
        }
    }
}

} // verus!
