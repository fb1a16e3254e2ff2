//! A single-tape, single-head Turing machine simulator.
//!
//! A transition table — an ordered sequence of [`rule::Instruction`]s —
//! maps a (state, read symbol) pair to a (write symbol, direction, next
//! state) triple.  A [`machine::Machine`] owns a growable tape of `char`
//! symbols, a head index, a current state label and the table; its `next`
//! operation performs one transition, extending the tape with blank (`'0'`)
//! cells on demand at either end.  The reserved state label `"HALT"` is
//! terminal, and an undefined transition halts the machine as well; the two
//! are reported as distinct [`machine::StepOutcome`] variants.

pub mod config;
pub mod machine;
pub mod rule;
pub mod text;

pub use config::ArgError;
pub use config::Config;
pub use machine::HaltReason;
pub use machine::Machine;
pub use machine::StepOutcome;
pub use machine::get_instruction;
pub use machine::parse_tape;
pub use rule::Instruction;
pub use rule::RuleError;
pub use rule::Step;
pub use rule::parse_rules;
