//! Spell definitions: a small definition language, its compiler, the damage
//! formulas of each spell and the names under which a spell's formulas are
//! offered to an expression evaluator.
pub mod formula;
pub mod magic;
pub mod lexer;
pub mod literal;
pub mod compile;
pub mod registry;
