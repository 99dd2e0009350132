//! From source text to what running it does: scanning, parsing and
//! evaluation in one step.

use crate::expressions::visitor::{flow_outcome, ExpressionInterpreter};
use crate::grammar::{parse_program, ParseError};
use crate::parser::parse;
use crate::scanner::{scan, scan_text, ScanError};
use crate::semantics::{run_program, RuntimeError};
use crate::statements::stmt_visitor::StatementRes;
use vstd::prelude::*;

verus! {

/// Why a source text did not run to its end.
#[derive(Debug, PartialEq, Eq)]
pub enum Failure {
    /// A character that starts no token.
    Scan(ScanError),
    /// The first syntax error.
    Parse(ParseError),
    /// The error that ended the run.
    Runtime(RuntimeError),
}

/// Scans and parses `source` and runs the program in the current scope of
/// `interpreter`. A text that does not scan or parse changes nothing.
pub fn interpret(interpreter: &mut ExpressionInterpreter, source: &str) -> (r: Result<
    StatementRes,
    Failure,
>)
    requires
        old(interpreter).wf(),
    ensures
        final(interpreter).wf(),
        match scan_text(source@) {
            Err(e) => r matches Err(Failure::Scan(found)) && found == e && *final(interpreter)
                == *old(interpreter),
            Ok(tokens) => match parse_program(tokens) {
                Err(e) => r matches Err(Failure::Parse(found)) && found == e && *final(interpreter)
                    == *old(interpreter),
                Ok(program) => {
                    let (machine, outcome) = run_program(
                        program,
                        old(interpreter).machine(),
                        old(interpreter).envs.current as nat,
                        old(interpreter).budget,
                    );
                    &&& final(interpreter).follows(*old(interpreter), machine)
                    &&& match r {
                        Ok(flow) => flow_outcome(Ok(flow)) == outcome,
                        Err(Failure::Runtime(e)) => flow_outcome(Err(e)) == outcome,
                        Err(_) => false,
                    }
                },
            },
        },
{
    let tokens = match scan(source) {
        Err(e) => {
            return Err(Failure::Scan(e));
        },
        Ok(tokens) => tokens,
    };
    let program = match parse(tokens) {
        Err(e) => {
            return Err(Failure::Parse(e));
        },
        Ok(program) => program,
    };
    match interpreter.run(&program) {
        Ok(flow) => Ok(flow),
        Err(e) => Err(Failure::Runtime(e)),
    }
}

} // verus!
