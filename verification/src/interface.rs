//! What reaches the pipeline from outside: animation commands and the
//! command line that issues them.

pub mod input;
pub mod parser;
