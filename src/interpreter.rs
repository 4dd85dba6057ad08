pub mod environment;
pub mod evaluator;
pub mod laws;
pub mod object;
pub mod runtime;
pub mod semantics;
pub mod purity;
