//! Core engine of a single-player arithmetic puzzle: a seeded generator
//! derives a pool of numbers, a subset of operators and a reachable target;
//! a selection state machine collects the player's picks; a resolver merges
//! two pool values with one operator until a single number remains, which an
//! outcome classifier compares against the target.

pub mod generator;
pub mod level;
pub mod num;
pub mod op;
pub mod outcome;
pub mod resolve;
pub mod rng;
pub mod round;

pub use generator::Puzzle;
pub use generator::generate_puzzle;
pub use level::Level;
pub use num::Rational;
pub use op::ArithmeticError;
pub use op::Operation;
pub use outcome::Outcome;
pub use resolve::GameResult;
pub use resolve::MergeOutcome;
pub use round::PlayRound;
pub use round::Selection;
pub use round::SlotHighlight;
