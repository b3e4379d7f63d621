//! A small stack language: a scanner that turns source text into code, and
//! the engine that runs code one instruction at a time on two value stacks.

pub mod utils;
pub mod tokens;
pub mod scanner;
pub mod value;
pub mod engine;
pub mod laws;
