//! Turning a language model's answer into shell command lines, and the
//! copy / execute / quit loop that lets a user act on them.

pub mod completion;
pub mod decision;
pub mod sanitize;
pub mod session;
pub mod text;
