//! A small dependently typed language: core calculus, evaluation, type
//! checking, elaboration of surface syntax, tactics and command processing.
pub mod term;
pub mod text;
pub mod env;
pub mod eval;
pub mod show;
pub mod typecheck;
pub mod ast;
pub mod ast_helpers;
pub mod elaborate;
pub mod pretty;
pub mod prelude;
pub mod tactics;
pub mod driver;
pub mod listing;
pub mod repl;
pub mod debug;
