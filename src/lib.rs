//! An interpreter for Push, a stack-based language whose programs are data.
//!
//! Programs are parsed into nested items on the EXEC stack; the engine pops
//! and dispatches them one step at a time, and control flow (loops,
//! combinators) is done by instructions that rewrite the EXEC stack. Every
//! stack has a mathematical model, and each instruction states its effect as a
//! relation between the models of the state before and after it.

pub mod item;
pub mod stack;
pub mod state;
pub mod text;
pub mod render;
pub mod names;
pub mod instructions;
pub mod execution;
pub mod topology;
pub mod list;
pub mod typed;
pub mod lexer;
pub mod parser;
pub mod interpreter;
pub mod laws;
