//! Fibonacci numbers for the command line: the options, the index that a
//! token names, and the lines for each index, exact as long as 128 bits hold
//! the term and marked for approximation from there on.

pub mod engine;
pub mod laws;
pub mod line;
pub mod options;
pub mod run;
pub mod sequence;
pub mod text;

pub use engine::Engine;
pub use line::Line;
pub use line::Value;
pub use options::get_opts;
pub use options::Flags;
pub use options::Halt;
pub use run::run;
pub use run::Run;
pub use run::Status;
pub use run::Step;
