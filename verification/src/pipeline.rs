//! The whole compilation pipeline in one call: source lines to assembly
//! text, or the first error of the first failing stage.
//!
//! The result is pinned down exactly by [`compile_spec`], a function of
//! the source text alone; running the pipeline twice on identical source
//! therefore yields byte-identical assembly.

use vstd::prelude::*;

use crate::ast::prog_size;
use crate::codegen::CodeGenerator;
use crate::codegen::GenModel;
use crate::codegen::gen_program;
use crate::codegen::gen_wf;
use crate::codegen::initial_gen;
use crate::error::CompilerStage;
use crate::error::ErrModel;
use crate::error::SyntaxError;
use crate::parser::lemma_sp_program_size;
use crate::parser::parse_program;
use crate::parser::sp_program;
use crate::scanner::Scanner;
use crate::tokenizer::lex_lines;
use crate::tokenizer::tokenize_lines;
use crate::token::Token;

verus! {

/// The assembly text the pipeline emits for the given source lines, or
/// the error of the first failing stage. Tokenizing, parsing and code
/// generation run in sequence; each failure aborts the rest.
pub open spec fn compile_spec(ls: Seq<Seq<char>>) -> Result<Seq<char>, ErrModel> {
    match lex_lines(ls, 0) {
        Err(m) => Err(ErrModel { stage: CompilerStage::Lexer, message: m }),
        Ok(toks) => match sp_program(toks, 0) {
            Err(m) => Err(ErrModel { stage: CompilerStage::Parser, message: m }),
            Ok((prog, _)) => match gen_program(initial_gen(), prog) {
                Err(m) => Err(ErrModel { stage: CompilerStage::CodeGenerator, message: m }),
                Ok((text, _)) => Ok(text),
            },
        },
    }
}

/// Runs the whole pipeline on the given source lines: tokenize each line,
/// parse the token sequence, and generate assembly text with a fresh
/// code generator. The result is exactly [`compile_spec`] of the lines.
pub fn compile_lines(lines: &Vec<String>) -> (r: Result<String, SyntaxError>)
    ensures
        match r {
            Ok(text) => compile_spec(lines.deep_view()) == Ok::<Seq<char>, ErrModel>(text@),
            Err(e) => compile_spec(lines.deep_view()) == Err::<Seq<char>, ErrModel>(e@),
        },
{
    let tokens: Vec<Token> = match tokenize_lines(lines) {
        Ok(ts) => ts,
        Err(e) => {
            return Err(e);
        },
    };
    let ghost toks = tokens.deep_view();
    let ntok = tokens.len();
    let mut scanner = Scanner::new(tokens);
    let program = match parse_program(&mut scanner) {
        Ok(p) => p,
        Err(e) => {
            return Err(e);
        },
    };
    proof {
        lemma_sp_program_size(toks, 0);
        assert(prog_size(program@) <= ntok as int);
        assert(gen_wf(initial_gen()));
    }
    let mut generator = CodeGenerator::new();
    match generator.generate(&program) {
        Ok(text) => Ok(text),
        Err(e) => Err(e),
    }
}

} // verus!
