//! A calculator core: one line of infix arithmetic and boolean logic is split
//! into tokens, reordered into postfix form, built into an expression tree and
//! evaluated to a typed result.
//!
//! Numbers travel through the library as IEEE 754 binary64 bit patterns held
//! in `u64`. The library decides everything that can be decided on the bit
//! pattern (equality, ordering, what counts as NaN) and leaves the arithmetic
//! itself, reading a number from text and writing one as text, to functions
//! that the caller hands in.
pub mod text;
pub mod number;
pub mod parser;
pub mod evaluable;
pub mod expression;

pub use evaluable::ArithmeticOp;
pub use evaluable::Evaluable;
pub use evaluable::EvaluableResult;
pub use evaluable::EvaluationParseError;
pub use expression::Expression;
