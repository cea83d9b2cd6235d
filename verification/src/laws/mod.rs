//! What holds of matching, of substitution and of the driver.

pub mod arity;
pub mod captures;
pub mod fixpoint;
pub mod matching;
pub mod resolving;
