//! The syntactic front end of a compiler for an object-oriented, event-driven
//! scripting language: a recursive-descent parsing core (token cursor with
//! checkpoint/restore backtracking, span-tracked nodes, and the combinators
//! for optional attempts, ordered alternation, and repetition), together with
//! the representative state-block construct built on top of it.

pub mod event;
pub mod failure;
pub mod function;
pub mod identifier;
pub mod laws;
pub mod node;
pub mod parser;
pub mod state;
pub mod token;
