//! An arity-checking analysis pass for a parsed smart-contract program.
//!
//! The pass walks a fully parsed expression tree, records the declared
//! parameter count of every user-defined function it meets, and checks that
//! every call to a user-defined function supplies exactly that many
//! arguments.  Definitions and calls may appear in any order in the source:
//! a call visited before its target's definition is deferred and reconciled
//! once the whole tree has been traversed.  Every mismatch yields one error
//! diagnostic; calls to names never defined anywhere are left to other
//! passes and produce nothing here.

pub mod ast;
pub mod diagnostic;
pub mod table;
pub mod semantics;
pub mod checker;
pub mod laws;
