//! Process and understand.
//!
//! What is semantically valid?

pub mod cmd;
pub mod error;
pub mod model;
pub mod name;
pub mod repr;
pub mod table;

use crate::runtime::cmd::{CommandView, Debit};
use crate::runtime::error::{Repr, ReprView};
use crate::runtime::model::{State, StateView};
use crate::syntax::ast::{Script, Stmt, StmtView};
use vstd::prelude::*;

verus! {

/// The ledger, and what is done to it.
#[derive(Debug)]
pub struct Runtime {
    pub(crate) state: State,
}

impl View for Runtime {
    type V = StateView;

    closed spec fn view(&self) -> StateView {
        self.state@
    }
}

impl Default for Runtime {
    fn default() -> (r: Self)
        ensures
            r@ == StateView::empty(),
    {
        Runtime { state: State::default() }
    }
}

impl Runtime {
    pub fn state(&self) -> (r: &State)
        ensures
            r@ == self@,
    {
        &self.state
    }

    pub fn to_state(self) -> (r: State)
        ensures
            r@ == self@,
    {
        self.state
    }

    /// Initializes an empty runtime.
    ///
    /// Run [`cmd::Create`] to start filling it afterwards.
    pub fn new() -> (r: Self)
        ensures
            r@ == StateView::empty(),
    {
        Runtime { state: State::default() }
    }

    /// Understands one statement and does what it says. Where the
    /// statement asks for a balance, the answer is returned.
    ///
    /// # Error
    ///
    /// Where the statement cannot be understood, nothing is done.
    pub fn step(&mut self, stmt: Stmt) -> (r: Result<Option<Debit>, Repr>)
        ensures
            match old(self)@.resolve(stmt@) {
                Ok(cmd) => r is Ok && final(self)@ == old(self)@.apply(cmd) && match cmd {
                    CommandView::Balance(between) => r->Ok_0 is Some && (
                        r->Ok_0->0.between@,
                        r->Ok_0->0.amount@,
                    ) == old(self)@.debit(between),
                    _ => r->Ok_0 is None,
                },
                Err(e) => r is Err && r->Err_0@ == e && final(self)@ == old(self)@,
            },
    {
        match self.repr(stmt) {
            Ok(cmd) => Ok(self.fulfil(cmd)),
            Err(e) => Err(e),
        }
    }

    /// Evaluate a whole parsed [`Script`]
    /// by [representing][Runtime::repr]
    /// every [statement][Stmt]
    /// as the corresponding [command][cmd::Command]
    /// and running it.
    ///
    /// # Error
    ///
    /// Note that in the case of an error,
    /// the runtime is not rolled back
    /// and still holds the state built _until_ the
    /// invalid instruction.
    pub fn run(&mut self, script: Script) -> (r: Result<(), Repr>)
        ensures
            final(self)@ == run_spec(old(self)@, script@).0,
            match run_spec(old(self)@, script@).1 {
                None => r is Ok,
                Some(e) => r is Err && r->Err_0@ == e,
            },
    {
        let ghost stmts = script@;
        let ghost start = self@;
        assert(stmts.skip(0) == stmts);
        for stmt in it: script.0.into_iter()
            invariant
                start == old(self)@,
                stmts == script@,
                it.seq().map_values(|stmt: Stmt| stmt@) == stmts,
                run_spec(start, stmts) == run_spec(self@, stmts.skip(it.index())),
        {
            assert(stmts.skip(it.index())[0] == stmt@);
            assert(stmts.skip(it.index()).drop_first() == stmts.skip(it.index() + 1));
            match self.step(stmt) {
                Ok(_) => {},
                Err(e) => {
                    return Err(e);
                },
            }
        }
        Ok(())
    }
}

/// What running the statements in order leads to: the state after the
/// last statement that was understood, and the error of the first
/// that was not. Nothing after that one is looked at, and nothing
/// before it is undone.
pub open spec fn run_spec(state: StateView, stmts: Seq<StmtView>) -> (StateView, Option<ReprView>)
    decreases stmts.len(),
{
    if stmts.len() == 0 {
        (state, None)
    } else {
        match state.resolve(stmts[0]) {
            Ok(cmd) => run_spec(state.apply(cmd), stmts.drop_first()),
            Err(e) => (state, Some(e)),
        }
    }
}

} // verus!
