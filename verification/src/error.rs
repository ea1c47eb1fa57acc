//! The single error type shared by all compiler stages.
//!
//! Each pipeline stage produces one kind of error, tagged with the stage it
//! arose in and carrying a free-text diagnostic message. Errors are never
//! recovered: the first one aborts the whole compilation.

use vstd::prelude::*;
use vstd::string::StringExecFns;

verus! {

/// The tag a stage prints in diagnostics.
pub open spec fn stage_text(s: CompilerStage) -> Seq<char> {
    match s {
        CompilerStage::Lexer => "LEXER"@,
        CompilerStage::Parser => "PARSER"@,
        CompilerStage::CodeGenerator => "CODEGENERATOR"@,
    }
}

/// The pipeline stage an error arose in.
#[derive(Clone, Copy, Debug, PartialEq, Eq, Structural)]
pub enum CompilerStage {
    Lexer,
    Parser,
    CodeGenerator,
}

/// The mathematical model of a [`SyntaxError`]: its stage and the
/// characters of its diagnostic message.
pub ghost struct ErrModel {
    pub stage: CompilerStage,
    pub message: Seq<char>,
}

/// An error from one compiler stage, with a human-readable message.
#[derive(Debug)]
pub struct SyntaxError {
    message: String,
    level: CompilerStage,
}

impl View for SyntaxError {
    type V = ErrModel;

    closed spec fn view(&self) -> ErrModel {
        ErrModel { stage: self.level, message: self.message@ }
    }
}

impl SyntaxError {
    /// An error from the tokenizer stage.
    pub fn new_lex_error(message: String) -> (e: Self)
        ensures
            e@ == (ErrModel { stage: CompilerStage::Lexer, message: message@ }),
    {
        SyntaxError { message, level: CompilerStage::Lexer }
    }

    /// An error from the parser stage.
    pub fn new_parse_error(message: String) -> (e: Self)
        ensures
            e@ == (ErrModel { stage: CompilerStage::Parser, message: message@ }),
    {
        SyntaxError { message, level: CompilerStage::Parser }
    }

    /// An error from the code-generation stage.
    pub fn new_codegen_error(message: String) -> (e: Self)
        ensures
            e@ == (ErrModel { stage: CompilerStage::CodeGenerator, message: message@ }),
    {
        SyntaxError { message, level: CompilerStage::CodeGenerator }
    }

    /// The diagnostic message.
    pub fn message(&self) -> (m: &String)
        ensures
            m@ == self@.message,
    {
        &self.message
    }

    /// The stage the error arose in.
    pub fn stage(&self) -> (s: CompilerStage)
        ensures
            s == self@.stage,
    {
        self.level
    }

    /// The full diagnostic line: the stage tag, the word `Error`, and
    /// the message.
    pub fn describe(&self) -> (d: String)
        ensures
            d@ == stage_text(self@.stage) + " Error "@ + self@.message,
    {
        let mut d = match self.level {
            CompilerStage::Lexer => String::from_str("LEXER"),
            CompilerStage::Parser => String::from_str("PARSER"),
            CompilerStage::CodeGenerator => String::from_str("CODEGENERATOR"),
        };
        d.append(" Error ");
        d.append(self.message.as_str());
        d
    }
}

} // verus!
