//! What the evaluator shares with the front end: runtime values and the
//! built-in functions, each a pure function from arguments to what the host
//! is to do.

pub mod built_in;
pub mod value;
