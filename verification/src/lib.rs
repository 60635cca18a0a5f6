//! An interpreter for a small ledger language.
//!
//! A script is a sequence of lines. It declares entities, concepts and
//! objects, records payments and deliveries between entities, and asks
//! for balances.
//!
//! # Pipeline
//!
//! 1. Load source code as a string.
//! 2. Split it into tokens with [`syntax::lex::lex`].
//! 3. Parse the tokens into a [`syntax::ast::Script`] with
//!    [`syntax::parse::parse_tokens`].
//! 4. Run the script in a [`Runtime`] with [`Runtime::run`]: each
//!    statement is understood in the state that the statements before
//!    it have left, and then done.
//!
//! [`eval`] does all of it.

pub mod ext;
pub mod runtime;
pub mod syntax;

use crate::runtime::error::{Repr, ReprView};
use crate::runtime::model::StateView;
pub use crate::runtime::Runtime;
use crate::runtime::run_spec;
use crate::syntax::grammar::{parse_spec, SyntaxErrorView};
use crate::syntax::parse::{parse, SyntaxError};
use vstd::prelude::*;

verus! {

/// Why a script was not run to its end.
#[derive(Debug)]
pub enum EvalError {
    /// The text is no script. Nothing was run.
    Syntax(SyntaxError),
    /// A statement could not be understood. The statements before it
    /// were run, and are not undone.
    Halted {
        /// The ledger as the statements before have left it.
        runtime: Runtime,
        error: Repr,
    },
}

/// What evaluating a text comes to: the ledger after the last
/// statement, or why there is none.
pub ghost enum Evaluated {
    Done(StateView),
    Syntax(SyntaxErrorView),
    Halted(StateView, ReprView),
}

/// What evaluating a text comes to. A text that is no script is not
/// run at all. A script is run on an empty ledger, statement by
/// statement, up to the first one that cannot be understood.
pub open spec fn eval_spec(src: Seq<char>) -> Evaluated {
    match parse_spec(src) {
        Err(e) => Evaluated::Syntax(e),
        Ok(stmts) => match run_spec(StateView::empty(), stmts).1 {
            None => Evaluated::Done(run_spec(StateView::empty(), stmts).0),
            Some(e) => Evaluated::Halted(run_spec(StateView::empty(), stmts).0, e),
        },
    }
}

/// Parses and runs the given script,
/// returning the final runtime state.
pub fn eval(script: &str) -> (r: Result<Runtime, EvalError>)
    ensures
        match eval_spec(script@) {
            Evaluated::Done(state) => r is Ok && r->Ok_0@ == state,
            Evaluated::Syntax(e) => r is Err && r->Err_0 is Syntax && r->Err_0->Syntax_0@ == e,
            Evaluated::Halted(state, e) => r is Err && r->Err_0 is Halted
                && r->Err_0->Halted_runtime@ == state && r->Err_0->Halted_error@ == e,
        },
{
    let script = match parse(script) {
        Ok(script) => script,
        Err(e) => {
            return Err(EvalError::Syntax(e));
        },
    };
    let mut runtime = Runtime::new();
    match runtime.run(script) {
        Ok(()) => Ok(runtime),
        Err(error) => Err(EvalError::Halted { runtime, error }),
    }
}

} // verus!
