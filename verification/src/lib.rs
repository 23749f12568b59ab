//! Core of a model-driven command loop: a small text command protocol, a
//! dispatcher that normalises the outcomes of side-effecting work into plain
//! text, and the conversation state machine that drives repeated model calls
//! until a terminal answer is seen.

pub mod agent;
pub mod exec;
pub mod repl;
pub mod text;
